use hack_toolchain::text::{
    chars_of, format_bits, is_digit, is_symbol_start, is_whitespace, normalize, push_bits,
    push_decimal, same_text, split_words,
};

#[test]
fn whitespace_is_the_unicode_property() {
    for c in [
        '\t', '\n', '\u{b}', '\u{c}', '\r', ' ', '\u{85}', '\u{a0}', '\u{1680}', '\u{2000}',
        '\u{2005}', '\u{200a}', '\u{2028}', '\u{2029}', '\u{202f}', '\u{205f}', '\u{3000}',
    ] {
        assert!(is_whitespace(c));
    }
    for c in ['a', '0', '/', '\u{8}', '\u{e}', '\u{200b}', '\u{1f}', '\u{feff}', '\u{180e}'] {
        assert!(!is_whitespace(c));
    }
    let mut code = 0u32;
    while code < 0x3100 {
        if let Some(c) = char::from_u32(code) {
            assert_eq!(is_whitespace(c), c.is_whitespace());
        }
        code += 1;
    }
}

#[test]
fn digits_and_symbol_starts() {
    assert!(is_digit('0') && is_digit('9'));
    assert!(!is_digit('/') && !is_digit(':') && !is_digit('\u{661}'));
    for c in ['A', 'Z', 'a', 'z', '_', '.', '$', ':'] {
        assert!(is_symbol_start(c));
    }
    for c in ['0', '9', '@', '[', '`', '{', '-', ' ', '\u{e9}'] {
        assert!(!is_symbol_start(c));
    }
}

#[test]
fn chars_of_keeps_every_character() {
    assert_eq!(chars_of(""), Vec::<char>::new());
    assert_eq!(chars_of("a\u{e9}\u{1f600}b"), vec!['a', '\u{e9}', '\u{1f600}', 'b']);
}

#[test]
fn normalize_strips_comment_then_whitespace() {
    assert_eq!(normalize("  D = M  // load"), "D=M");
    assert_eq!(normalize("// only a comment"), "");
    assert_eq!(normalize(""), "");
    assert_eq!(normalize(" \t "), "");
    assert_eq!(normalize("A/B"), "A/B");
    assert_eq!(normalize("A/ /B"), "A//B");
    assert_eq!(normalize("A///B"), "A");
    assert_eq!(normalize("/"), "/");
    assert_eq!(normalize("x/"), "x/");
    assert_eq!(normalize("@\u{3000}R 1\n"), "@R1");
}

#[test]
fn split_words_parts_at_whitespace() {
    assert_eq!(split_words("push constant 7"), vec!["push", "constant", "7"]);
    assert_eq!(split_words("  push\t\tconstant   7  // seven"), vec!["push", "constant", "7"]);
    assert_eq!(split_words("add//x"), vec!["add"]);
    assert_eq!(split_words("a / b"), vec!["a", "/", "b"]);
    assert_eq!(split_words(""), Vec::<String>::new());
    assert_eq!(split_words("   "), Vec::<String>::new());
    assert_eq!(split_words("// push constant 7"), Vec::<String>::new());
    assert_eq!(split_words("x"), vec!["x"]);
    assert_eq!(split_words("a\u{2003}b\r"), vec!["a", "b"]);
}

#[test]
fn same_text_compares_characters() {
    assert!(same_text("", ""));
    assert!(same_text("if-goto", "if-goto"));
    assert!(!same_text("if-goto", "if-gotO"));
    assert!(!same_text("add", "add "));
    assert!(!same_text("add", "ad"));
}

#[test]
fn decimal_text_is_the_shortest_numeral() {
    for (n, text) in [
        (0u64, "0"),
        (7, "7"),
        (10, "10"),
        (99, "99"),
        (100, "100"),
        (32767, "32767"),
        (u64::MAX, "18446744073709551615"),
    ] {
        let mut out = String::from("@");
        push_decimal(&mut out, n);
        assert_eq!(out, format!("@{}", text));
    }
}

#[test]
fn bits_are_written_most_significant_first() {
    assert_eq!(format_bits(0), "0000000000000000");
    assert_eq!(format_bits(1), "0000000000000001");
    assert_eq!(format_bits(2), "0000000000000010");
    assert_eq!(format_bits(0x8000), "1000000000000000");
    assert_eq!(format_bits(0xFFFF), "1111111111111111");
    assert_eq!(format_bits(0xA5C3), "1010010111000011");
    let mut out = String::from("x");
    push_bits(&mut out, 0b101, 3);
    push_bits(&mut out, 0b101, 2);
    push_bits(&mut out, 9, 0);
    push_bits(&mut out, 1, 4);
    assert_eq!(out, "x101010001");
}
