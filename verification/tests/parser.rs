use hack_toolchain::code::{encode_c, Code};
use hack_toolchain::error::AsmErrorKind;
use hack_toolchain::parser::{classify, LineKind, Parser};
use hack_toolchain::symbols::SymbolTable;

fn parser() -> Parser {
    let mut table = SymbolTable::new();
    table.bind_predefined();
    Parser::new(table)
}

#[test]
fn code_tables_hold_the_mnemonics() {
    let code = Code::new();
    let dest = ["null", "M", "D", "DM", "A", "AM", "AD", "ADM"];
    let jump = ["null", "JGT", "JEQ", "JGE", "JLT", "JNE", "JLE", "JMP"];
    for bits in 0..8u16 {
        assert_eq!(code.dest(dest[bits as usize]), Some(bits));
        assert_eq!(code.jump(jump[bits as usize]), Some(bits));
    }
    for (mnemonic, bits) in [
        ("MD", 3u16),
        ("MA", 5),
        ("DA", 6),
        ("AMD", 7),
        ("DAM", 7),
        ("DMA", 7),
        ("MAD", 7),
        ("MDA", 7),
    ] {
        assert_eq!(code.dest(mnemonic), Some(bits));
    }
    let comp = [
        ("0", 0b0101010u16),
        ("1", 0b0111111),
        ("-1", 0b0111010),
        ("D", 0b0001100),
        ("A", 0b0110000),
        ("M", 0b1110000),
        ("!D", 0b0001101),
        ("!A", 0b0110001),
        ("!M", 0b1110001),
        ("-D", 0b0001111),
        ("-A", 0b0110011),
        ("-M", 0b1110011),
        ("D+1", 0b0011111),
        ("A+1", 0b0110111),
        ("M+1", 0b1110111),
        ("D-1", 0b0001110),
        ("A-1", 0b0110010),
        ("M-1", 0b1110010),
        ("D+A", 0b0000010),
        ("D+M", 0b1000010),
        ("D-A", 0b0010011),
        ("D-M", 0b1010011),
        ("A-D", 0b0000111),
        ("M-D", 0b1000111),
        ("D&A", 0b0000000),
        ("D&M", 0b1000000),
        ("D|A", 0b0010101),
        ("D|M", 0b1010101),
    ];
    for (mnemonic, bits) in comp {
        assert_eq!(code.comp(mnemonic), Some(bits));
    }
}

#[test]
fn code_tables_hold_nothing_else() {
    let code = Code::new();
    assert_eq!(code.dest("MM"), None);
    assert_eq!(code.dest("ADMA"), None);
    assert_eq!(code.dest("Null"), None);
    assert_eq!(code.dest("a"), None);
    assert_eq!(code.dest(""), None);
    assert_eq!(code.dest("JMP"), None);
    assert_eq!(code.jump("jmp"), None);
    assert_eq!(code.jump("M"), None);
    assert_eq!(code.comp("A+D"), None);
    assert_eq!(code.comp("null"), None);
    assert_eq!(code.comp("D+1 "), None);
}

#[test]
fn c_word_packs_the_three_fields() {
    assert_eq!(encode_c(0, 0, 0), 0xE000);
    assert_eq!(encode_c(0b1010101, 0b111, 0b101), 0b1111010101111101);
    assert_eq!(encode_c(127, 7, 7), 0xFFFF);
    assert_eq!(encode_c(1, 0, 0), 0xE040);
    assert_eq!(encode_c(0, 1, 0), 0xE008);
    assert_eq!(encode_c(0, 0, 1), 0xE001);
}

#[test]
fn new_parser_starts_at_zero_and_sixteen() {
    let parser = parser();
    assert_eq!(parser.instruction_line(), 0);
    assert_eq!(parser.variable_address(), 16);
    assert_eq!(parser.lookup("KBD"), Some(24576));
    assert_eq!(parser.lookup("x"), None);
}

#[test]
fn first_pass_counts_instructions_and_binds_labels() {
    let mut parser = parser();
    assert_eq!(parser.parse_labels("@x"), Ok(()));
    assert_eq!(parser.parse_labels("  // nothing"), Ok(()));
    assert_eq!(parser.parse_labels(""), Ok(()));
    assert_eq!(parser.parse_labels("not an instruction at all"), Ok(()));
    assert_eq!(parser.instruction_line(), 2);
    assert_eq!(parser.parse_labels(" ( HERE ) // label"), Ok(()));
    assert_eq!(parser.instruction_line(), 2);
    assert_eq!(parser.lookup("HERE"), Some(2));
    assert_eq!(parser.lookup("x"), None);
    assert_eq!(parser.variable_address(), 16);
}

#[test]
fn first_pass_leaves_the_parser_alone_when_it_rejects() {
    let mut parser = parser();
    assert_eq!(parser.parse_labels("D=A"), Ok(()));
    assert_eq!(parser.parse_labels("(A)"), Ok(()));
    assert_eq!(parser.parse_labels("(A)"), Err(AsmErrorKind::DuplicateLabel));
    assert_eq!(parser.parse_labels("(B"), Err(AsmErrorKind::MalformedLine));
    assert_eq!(parser.parse_labels("(LCL)"), Err(AsmErrorKind::DuplicateLabel));
    assert_eq!(parser.instruction_line(), 1);
    assert_eq!(parser.lookup("A"), Some(1));
    assert_eq!(parser.lookup("B"), None);
    assert_eq!(parser.lookup("LCL"), Some(1));
}

#[test]
fn reset_goes_back_to_address_zero() {
    let mut parser = parser();
    parser.parse_labels("D=A").unwrap();
    parser.parse_labels("(L)").unwrap();
    parser.parse_instructions("@v").unwrap();
    assert_eq!(parser.instruction_line(), 2);
    parser.reset_instruction_line();
    assert_eq!(parser.instruction_line(), 0);
    assert_eq!(parser.variable_address(), 17);
    assert_eq!(parser.lookup("L"), Some(1));
    assert_eq!(parser.lookup("v"), Some(16));
}

#[test]
fn second_pass_encodes_and_counts() {
    let mut parser = parser();
    assert_eq!(parser.parse_instructions("// words"), Ok(None));
    assert_eq!(parser.parse_instructions("(LOOP)"), Ok(None));
    assert_eq!(parser.parse_instructions("(LOOP"), Ok(None));
    assert_eq!(parser.instruction_line(), 0);
    assert_eq!(parser.lookup("LOOP"), None);
    assert_eq!(
        parser.parse_instructions(" @ 21 "),
        Ok(Some("0000000000010101".to_string()))
    );
    assert_eq!(
        parser.parse_instructions("AM = M-1 ; JEQ // both"),
        Ok(Some("1111110010101010".to_string()))
    );
    assert_eq!(parser.instruction_line(), 2);
}

#[test]
fn second_pass_leaves_the_parser_alone_when_it_rejects() {
    let mut parser = parser();
    parser.parse_instructions("@a").unwrap();
    assert_eq!(parser.parse_instructions("D=D+D"), Err(AsmErrorKind::UnknownComp));
    assert_eq!(parser.parse_instructions("@40000"), Err(AsmErrorKind::AddressOverflow));
    assert_eq!(parser.parse_instructions("@4x"), Err(AsmErrorKind::MalformedLine));
    assert_eq!(parser.instruction_line(), 1);
    assert_eq!(parser.variable_address(), 17);
    assert_eq!(parser.lookup("4x"), None);
}

#[test]
fn address_instruction_reads_numbers_and_symbols() {
    let mut parser = parser();
    assert_eq!(parser.decode_a_instructions("@0".to_string()), Ok(0));
    assert_eq!(parser.decode_a_instructions("@32767".to_string()), Ok(32767));
    assert_eq!(
        parser.decode_a_instructions("@32768".to_string()),
        Err(AsmErrorKind::AddressOverflow)
    );
    assert_eq!(parser.decode_a_instructions("@SCREEN".to_string()), Ok(16384));
    assert_eq!(parser.decode_a_instructions("@first".to_string()), Ok(16));
    assert_eq!(parser.decode_a_instructions("@second".to_string()), Ok(17));
    assert_eq!(parser.decode_a_instructions("@first".to_string()), Ok(16));
    assert_eq!(parser.variable_address(), 18);
    assert_eq!(parser.instruction_line(), 0);
    assert_eq!(
        parser.decode_a_instructions("".to_string()),
        Err(AsmErrorKind::MalformedLine)
    );
    assert_eq!(
        parser.decode_a_instructions("@1 2".to_string()),
        Err(AsmErrorKind::MalformedLine)
    );
    assert_eq!(
        parser.decode_a_instructions("@12\n".to_string()),
        Err(AsmErrorKind::MalformedLine)
    );
    assert_eq!(
        parser.decode_a_instructions("x7".to_string()),
        Err(AsmErrorKind::MalformedLine)
    );
    assert_eq!(
        parser.decode_a_instructions("SCREEN".to_string()),
        Err(AsmErrorKind::MalformedLine)
    );
}

#[test]
fn compute_instruction_reads_its_three_parts() {
    let parser = parser();
    assert_eq!(parser.decode_c_instruction("D".to_string()), Ok(0b1110001100000000));
    assert_eq!(parser.decode_c_instruction("null=D;null".to_string()), Ok(0b1110001100000000));
    assert_eq!(parser.decode_c_instruction("M=D".to_string()), Ok(0b1110001100001000));
    assert_eq!(parser.decode_c_instruction("D;JLT".to_string()), Ok(0b1110001100000100));
    assert_eq!(parser.decode_c_instruction("AD=D&M;JGE".to_string()), Ok(0b1111000000110011));
    assert_eq!(
        parser.decode_c_instruction("A=D=M".to_string()),
        Err(AsmErrorKind::UnknownComp)
    );
    assert_eq!(
        parser.decode_c_instruction("D;=A".to_string()),
        Err(AsmErrorKind::UnknownDest)
    );
    assert_eq!(
        parser.decode_c_instruction("D = A".to_string()),
        Err(AsmErrorKind::UnknownDest)
    );
    assert_eq!(parser.decode_c_instruction("".to_string()), Err(AsmErrorKind::UnknownComp));
}

#[test]
fn line_feed_hides_the_destination() {
    let parser = parser();
    assert_eq!(
        parser.decode_c_instruction("X=\nA".to_string()),
        Err(AsmErrorKind::UnknownComp)
    );
    assert_eq!(
        parser.decode_c_instruction("X=A\r".to_string()),
        Err(AsmErrorKind::UnknownDest)
    );
    assert_eq!(
        parser.decode_c_instruction("D=A;\n".to_string()),
        Err(AsmErrorKind::UnknownComp)
    );
}

#[test]
fn symbols_come_back_from_the_parser() {
    let mut parser = parser();
    parser.parse_labels("(ENTRY)").unwrap();
    parser.parse_instructions("@counter").unwrap();
    let table = parser.into_symbols();
    assert_eq!(table.get("ENTRY"), Some(0));
    assert_eq!(table.get("counter"), Some(16));
    assert!(table.contains("R12"));
    assert!(!table.contains("R16"));
    assert_eq!(SymbolTable::new().get("SP"), None);
}

#[test]
fn rom_addresses_end_at_32767() {
    let mut parser = parser();
    for _ in 0..32767 {
        parser.parse_labels("0;JMP").unwrap();
    }
    assert_eq!(parser.parse_labels("(LAST)"), Ok(()));
    assert_eq!(parser.lookup("LAST"), Some(32767));
    assert_eq!(parser.parse_instructions("@1"), Ok(Some("0000000000000001".to_string())));
    assert_eq!(parser.instruction_line(), 32768);
    assert_eq!(parser.parse_labels("(END)"), Err(AsmErrorKind::AddressOverflow));
    assert_eq!(parser.parse_labels("0;JMP"), Err(AsmErrorKind::AddressOverflow));
    assert_eq!(parser.parse_instructions("0;JMP"), Err(AsmErrorKind::AddressOverflow));
    assert_eq!(parser.parse_instructions("@new"), Err(AsmErrorKind::AddressOverflow));
    assert_eq!(parser.parse_instructions("(LAST)"), Ok(None));
    assert_eq!(parser.parse_labels("// end"), Ok(()));
    assert_eq!(parser.instruction_line(), 32768);
    assert_eq!(parser.lookup("END"), None);
    assert_eq!(parser.lookup("new"), None);
}

#[test]
fn lines_are_classified_by_their_first_character() {
    assert_eq!(classify(""), LineKind::Blank);
    assert_eq!(classify("   // note"), LineKind::Blank);
    assert_eq!(classify(" (LOOP) "), LineKind::Label);
    assert_eq!(classify("(LOOP"), LineKind::Label);
    assert_eq!(classify("@i"), LineKind::Address);
    assert_eq!(classify(" @ 12 // twelve"), LineKind::Address);
    assert_eq!(classify("D=M;JGT"), LineKind::Compute);
    assert_eq!(classify(")("), LineKind::Compute);
    assert_eq!(classify("/"), LineKind::Compute);
}
