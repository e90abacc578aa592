use hack_toolchain::assembler::{hack_file, Assembler};
use hack_toolchain::error::{AsmError, AsmErrorKind};
use std::path::PathBuf;

fn program(text: &[&str]) -> Vec<String> {
    text.iter().map(|line| line.to_string()).collect()
}

fn fresh() -> Assembler {
    let mut assembler = Assembler::new(PathBuf::from("Prog.asm"));
    assembler.initialize();
    assembler
}

fn assemble(text: &[&str]) -> Result<Vec<String>, AsmError> {
    fresh().assemble(&program(text))
}

fn rejected(line: usize, kind: AsmErrorKind) -> Result<Vec<String>, AsmError> {
    Err(AsmError { line, kind })
}

#[test]
fn adds_two_constants() {
    let out = assemble(&["@2", "D=A", "@3", "D=D+A", "@0", "M=D"]).unwrap();
    assert_eq!(
        out,
        vec![
            "0000000000000010",
            "1110110000010000",
            "0000000000000011",
            "1110000010010000",
            "0000000000000000",
            "1110001100001000",
        ]
    );
}

#[test]
fn label_before_its_use() {
    let out = assemble(&["(LOOP)", "@LOOP", "0;JMP"]).unwrap();
    assert_eq!(out, vec!["0000000000000000", "1110101010000111"]);
}

#[test]
fn symbols_and_variables() {
    let mut assembler = fresh();
    let out = assembler
        .assemble(&program(&[
            "@i", "M=1", "@sum", "M=0", "(LOOP)", "@i", "D=M", "@LOOP", "0;JMP",
        ]))
        .unwrap();
    assert_eq!(assembler.lookup("i"), Some(16));
    assert_eq!(assembler.lookup("sum"), Some(17));
    assert_eq!(assembler.lookup("LOOP"), Some(4));
    assert_eq!(
        out,
        vec![
            "0000000000010000",
            "1110111111001000",
            "0000000000010001",
            "1110101010001000",
            "0000000000010000",
            "1111110000010000",
            "0000000000000100",
            "1110101010000111",
        ]
    );
}

#[test]
fn largest_constant() {
    assert_eq!(assemble(&["@32767"]).unwrap(), vec!["0111111111111111"]);
}

#[test]
fn constant_above_the_largest() {
    assert_eq!(assemble(&["@32768"]), rejected(1, AsmErrorKind::AddressOverflow));
    assert_eq!(
        assemble(&["@0", "@99999999999999999999999"]),
        rejected(2, AsmErrorKind::AddressOverflow)
    );
}

#[test]
fn constant_with_leading_zeros() {
    assert_eq!(assemble(&["@007"]).unwrap(), vec!["0000000000000111"]);
}

#[test]
fn empty_program() {
    assert_eq!(assemble(&[]).unwrap(), Vec::<String>::new());
    assert_eq!(hack_file(&Vec::new()), "");
}

#[test]
fn hack_file_closes_each_line() {
    let out = assemble(&["@1", "D=A"]).unwrap();
    assert_eq!(hack_file(&out), "0000000000000001\n1110110000010000\n");
}

#[test]
fn new_assembler_binds_nothing() {
    let assembler = Assembler::new(PathBuf::from("dir/Prog.asm"));
    assert_eq!(assembler.path(), &PathBuf::from("dir/Prog.asm"));
    assert_eq!(assembler.lookup("SP"), None);
    assert_eq!(assembler.lookup("R0"), None);
}

#[test]
fn initialize_binds_the_predefined_symbols() {
    let assembler = fresh();
    assert_eq!(assembler.path(), &PathBuf::from("Prog.asm"));
    for (name, address) in [
        ("SP", 0u16),
        ("LCL", 1),
        ("ARG", 2),
        ("THIS", 3),
        ("THAT", 4),
        ("SCREEN", 16384),
        ("KBD", 24576),
    ] {
        assert_eq!(assembler.lookup(name), Some(address));
    }
    for n in 0..16u16 {
        assert_eq!(assembler.lookup(&format!("R{}", n)), Some(n));
    }
    assert_eq!(assembler.lookup("R16"), None);
    assert_eq!(assembler.lookup("sp"), None);
}

#[test]
fn predefined_symbols_encode_their_addresses() {
    let out = assemble(&["@SP", "@R15", "@SCREEN", "@KBD", "@THAT"]).unwrap();
    assert_eq!(
        out,
        vec![
            "0000000000000000",
            "0000000000001111",
            "0100000000000000",
            "0110000000000000",
            "0000000000000100",
        ]
    );
}

#[test]
fn every_output_line_has_sixteen_binary_digits() {
    let out = assemble(&["@x", "ADM=D|M;JNE", "(L)", "@L", "D;JGT", "// note", "", "@32767"])
        .unwrap();
    assert_eq!(out.len(), 5);
    for line in &out {
        assert_eq!(line.len(), 16);
        assert!(line.chars().all(|c| c == '0' || c == '1'));
    }
    assert_eq!(out[1], "1111010101111101");
    assert_eq!(out[3], "1110001100000001");
}

#[test]
fn labels_emit_no_line() {
    assert_eq!(assemble(&["(A)", "(B)", "(C)"]).unwrap(), Vec::<String>::new());
    assert_eq!(assemble(&["(A)", "@A", "(B)", "@B"]).unwrap().len(), 2);
}

#[test]
fn label_used_before_its_declaration() {
    let mut assembler = fresh();
    let out = assembler
        .assemble(&program(&["@END", "0;JMP", "@1", "(END)", "@END", "0;JMP"]))
        .unwrap();
    assert_eq!(assembler.lookup("END"), Some(3));
    assert_eq!(out[0], "0000000000000011");
    assert_eq!(out[3], "0000000000000011");
    assert_eq!(out.len(), 5);
}

#[test]
fn label_at_the_end_gets_the_next_address() {
    let mut assembler = fresh();
    assembler.assemble(&program(&["@0", "@1", "(END)"])).unwrap();
    assert_eq!(assembler.lookup("END"), Some(2));
}

#[test]
fn variables_follow_the_order_of_first_use() {
    let mut assembler = fresh();
    let out = assembler
        .assemble(&program(&["@b", "@a", "@b", "@R3", "@c", "(d)", "@d", "@a"]))
        .unwrap();
    assert_eq!(assembler.lookup("b"), Some(16));
    assert_eq!(assembler.lookup("a"), Some(17));
    assert_eq!(assembler.lookup("c"), Some(18));
    assert_eq!(assembler.lookup("d"), Some(5));
    assert_eq!(
        out,
        vec![
            "0000000000010000",
            "0000000000010001",
            "0000000000010000",
            "0000000000000011",
            "0000000000010010",
            "0000000000000101",
            "0000000000010001",
        ]
    );
}

#[test]
fn output_has_one_line_for_each_instruction() {
    let text = [
        "// Adds 1 + ... + 100",
        "",
        "   @i   // counter",
        "M=1",
        "(LOOP)",
        "\t@i",
        "D = M",
        "  ",
        "@LOOP // back",
        "0 ; JMP",
        "//(END)",
    ];
    let out = assemble(&text).unwrap();
    assert_eq!(out.len(), 6);
    assert_eq!(out[4], "0000000000000010");
    assert_eq!(out[3], "1111110000010000");
    assert_eq!(out[5], "1110101010000111");
}

#[test]
fn comments_and_whitespace_are_ignored() {
    assert_eq!(
        assemble(&["  D = A  // load ", "\u{a0}@\u{2003}5"]).unwrap(),
        vec!["1110110000010000", "0000000000000101"]
    );
    assert_eq!(assemble(&["D=A / /x"]), rejected(1, AsmErrorKind::UnknownComp));
}

#[test]
fn duplicate_label_is_rejected() {
    assert_eq!(
        assemble(&["(A)", "@0", "(A)"]),
        rejected(3, AsmErrorKind::DuplicateLabel)
    );
}

#[test]
fn label_named_like_a_predefined_symbol_is_rejected() {
    assert_eq!(assemble(&["@0", "(SCREEN)"]), rejected(2, AsmErrorKind::DuplicateLabel));
    assert_eq!(assemble(&["(R7)"]), rejected(1, AsmErrorKind::DuplicateLabel));
    let mut bare = Assembler::new(PathBuf::from("Prog.asm"));
    assert_eq!(bare.assemble(&program(&["(R7)", "@R7"])).unwrap(), vec!["0000000000000000"]);
}

#[test]
fn malformed_labels_are_rejected() {
    assert_eq!(assemble(&["(LOOP"]), rejected(1, AsmErrorKind::MalformedLine));
    assert_eq!(assemble(&["("]), rejected(1, AsmErrorKind::MalformedLine));
    assert_eq!(assemble(&["()"]), rejected(1, AsmErrorKind::MalformedLine));
    assert_eq!(assemble(&["(1ST)"]), rejected(1, AsmErrorKind::MalformedLine));
    assert_eq!(assemble(&["(A B-C)"]), rejected(1, AsmErrorKind::MalformedLine));
    assert_eq!(assemble(&["@0", "(LOOP)x"]), rejected(2, AsmErrorKind::MalformedLine));
}

#[test]
fn malformed_addresses_are_rejected() {
    assert_eq!(assemble(&["@"]), rejected(1, AsmErrorKind::MalformedLine));
    assert_eq!(assemble(&["@12a"]), rejected(1, AsmErrorKind::MalformedLine));
    assert_eq!(assemble(&["@-1"]), rejected(1, AsmErrorKind::MalformedLine));
    assert_eq!(assemble(&["@a+b"]), rejected(1, AsmErrorKind::MalformedLine));
    assert_eq!(assemble(&["@\u{663}"]), rejected(1, AsmErrorKind::MalformedLine));
}

#[test]
fn symbols_may_hold_the_four_marks() {
    let mut assembler = fresh();
    assembler.assemble(&program(&["@_a.b$c:d9", "@$", "(Main.f$ret.1)"])).unwrap();
    assert_eq!(assembler.lookup("_a.b$c:d9"), Some(16));
    assert_eq!(assembler.lookup("$"), Some(17));
    assert_eq!(assembler.lookup("Main.f$ret.1"), Some(2));
}

#[test]
fn unknown_mnemonics_are_told_apart() {
    assert_eq!(assemble(&["X=D"]), rejected(1, AsmErrorKind::UnknownDest));
    assert_eq!(assemble(&["MM=D"]), rejected(1, AsmErrorKind::UnknownDest));
    assert_eq!(assemble(&["AMDA=D"]), rejected(1, AsmErrorKind::UnknownDest));
    assert_eq!(assemble(&["d=D"]), rejected(1, AsmErrorKind::UnknownDest));
    assert_eq!(assemble(&["=D"]), rejected(1, AsmErrorKind::UnknownDest));
    assert_eq!(assemble(&["D=M&D"]), rejected(1, AsmErrorKind::UnknownComp));
    assert_eq!(assemble(&["D=d"]), rejected(1, AsmErrorKind::UnknownComp));
    assert_eq!(assemble(&[";JMP"]), rejected(1, AsmErrorKind::UnknownComp));
    assert_eq!(assemble(&["D;JXX"]), rejected(1, AsmErrorKind::UnknownJump));
    assert_eq!(assemble(&["D;JMP;JMP"]), rejected(1, AsmErrorKind::UnknownJump));
    assert_eq!(assemble(&["X=Y;Z"]), rejected(1, AsmErrorKind::UnknownDest));
    assert_eq!(assemble(&["D=Y;Z"]), rejected(1, AsmErrorKind::UnknownComp));
}

#[test]
fn destination_names_its_registers_in_any_order() {
    let out = assemble(&[
        "M=D", "D=D", "DM=D", "MD=D", "A=D", "AM=D", "MA=D", "AD=D", "DA=D", "ADM=D", "AMD=D",
        "DAM=D", "DMA=D", "MAD=D", "MDA=D", "null=D", "D",
    ])
    .unwrap();
    let bits = [1, 2, 3, 3, 4, 5, 5, 6, 6, 7, 7, 7, 7, 7, 7, 0, 0];
    assert_eq!(out.len(), bits.len());
    for (line, dest) in out.iter().zip(bits) {
        assert_eq!(line, &format!("1110001100{:03b}000", dest));
    }
}

#[test]
fn nothing_behind_a_separator_is_malformed() {
    assert_eq!(assemble(&["D="]), rejected(1, AsmErrorKind::MalformedLine));
    assert_eq!(assemble(&["D;"]), rejected(1, AsmErrorKind::MalformedLine));
    assert_eq!(assemble(&["X=Y;"]), rejected(1, AsmErrorKind::MalformedLine));
    assert_eq!(assemble(&["D=;JMP"]), rejected(1, AsmErrorKind::UnknownComp));
}

#[test]
fn first_rejected_line_is_reported() {
    assert_eq!(
        assemble(&["@1", "D=Q", "(A", "@32768"]),
        rejected(3, AsmErrorKind::MalformedLine)
    );
    assert_eq!(
        assemble(&["@1", "D=Q", "", "@32768"]),
        rejected(2, AsmErrorKind::UnknownComp)
    );
}

#[test]
fn symbols_stay_bound_up_to_the_rejected_line() {
    let mut assembler = fresh();
    assert_eq!(
        assembler.assemble(&program(&["(A)", "@x", "D=Q", "@y", "(B)"])),
        rejected(3, AsmErrorKind::UnknownComp)
    );
    assert_eq!(assembler.lookup("A"), Some(0));
    assert_eq!(assembler.lookup("B"), Some(3));
    assert_eq!(assembler.lookup("x"), Some(16));
    assert_eq!(assembler.lookup("y"), None);

    let mut other = fresh();
    assert_eq!(
        other.assemble(&program(&["(A)", "@x", "(A)", "(B)"])),
        rejected(3, AsmErrorKind::DuplicateLabel)
    );
    assert_eq!(other.lookup("A"), Some(0));
    assert_eq!(other.lookup("B"), None);
    assert_eq!(other.lookup("x"), None);
}

#[test]
fn variables_stop_at_the_screen_map() {
    let mut lines: Vec<String> = Vec::new();
    for n in 0..16368 {
        lines.push(format!("@v{}", n));
    }
    lines.push("@R1".to_string());
    lines.push("@v0".to_string());
    lines.push("@last".to_string());
    lines.push("@v1".to_string());
    let mut assembler = fresh();
    assert_eq!(assembler.assemble(&lines), rejected(16371, AsmErrorKind::AddressOverflow));
    assert_eq!(assembler.lookup("v0"), Some(16));
    assert_eq!(assembler.lookup("v16367"), Some(16383));
    assert_eq!(assembler.lookup("last"), None);
}

#[test]
fn rom_is_full_after_32768_instructions() {
    let mut lines: Vec<String> = Vec::new();
    for _ in 0..32768 {
        lines.push("D=A".to_string());
    }
    lines.push("// full".to_string());
    lines.push("(END)".to_string());
    assert_eq!(fresh().assemble(&lines), rejected(32770, AsmErrorKind::AddressOverflow));
    lines.pop();
    lines.push("D=A".to_string());
    assert_eq!(fresh().assemble(&lines), rejected(32770, AsmErrorKind::AddressOverflow));
}

#[test]
fn disassembled_output_assembles_to_itself() {
    let first = assemble(&[
        "@i", "M=1", "(LOOP)", "@i", "D=M", "@100", "D=D-A", "@END", "D;JGT", "@i", "ADM=M+1",
        "@LOOP", "0;JMP", "(END)", "@END", "0;JMP", "D|M", "A=!M;JLE",
    ])
    .unwrap();
    let written = [
        "@16", "M=1", "@16", "D=M", "@100", "D=D-A", "@12", "D;JGT", "@16", "ADM=M+1", "@2",
        "0;JMP", "@12", "0;JMP", "D|M", "A=!M;JLE",
    ];
    assert_eq!(first.len(), written.len());
    let second = Assembler::new(PathBuf::from("Again.asm")).assemble(&program(&written)).unwrap();
    assert_eq!(first, second);
    assert_eq!(hack_file(&first), hack_file(&second));
}
