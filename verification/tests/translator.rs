use hack_toolchain::error::{VmError, VmErrorKind};
use hack_toolchain::generator::{epilogue, translate_program, CodeGenerator};
use hack_toolchain::vm::{
    is_name, parse_command, parse_index, parse_segment, Command, Segment,
};

fn source(text: &[&str]) -> Vec<String> {
    text.iter().map(|line| line.to_string()).collect()
}

fn rejected(line: usize, kind: VmErrorKind) -> Result<String, VmError> {
    Err(VmError { line, kind })
}

fn one(line: &str) -> String {
    CodeGenerator::new("Foo").translate_line(line).unwrap().unwrap()
}

fn refuses(line: &str) -> VmErrorKind {
    CodeGenerator::new("Foo").translate_line(line).unwrap_err()
}

const EPILOGUE: &str = "(INFINITE_LOOP)\n\t@INFINITE_LOOP\n\t0;JMP\n";
const PUSH_D: &str = "\t@SP\n\tA=M\n\tM=D\n\t@SP\n\tM=M+1\n";
const POP_D: &str = "\t@SP\n\tAM=M-1\n\tD=M\n";

#[test]
fn push_constant_seven() {
    assert_eq!(
        one("push constant 7"),
        "// push constant 7\n\t@7\n\tD=A\n\t@SP\n\tA=M\n\tM=D\n\t@SP\n\tM=M+1\n"
    );
}

#[test]
fn equality_with_counter() {
    let mut generator = CodeGenerator::new("Foo");
    generator.translate_line("lt").unwrap();
    generator.translate_line("gt").unwrap();
    assert_eq!(generator.label_counter(), 2);
    let out = generator.translate_line("eq").unwrap().unwrap();
    assert_eq!(
        out,
        "// eq\n\t@SP\n\tAM=M-1\n\tD=M\n\tA=A-1\n\tD=M-D\n\t@TRUE.2\n\tD;JEQ\n\t@SP\n\tA=M-1\n\tM=0\n\t@CONTINUE.2\n\t0;JMP\n(TRUE.2)\n\t@SP\n\tA=M-1\n\tM=-1\n(CONTINUE.2)\n"
    );
    assert_eq!(generator.label_counter(), 3);

    let mut later = CodeGenerator::starting_at("Foo", 1234);
    let text = later.translate_line("eq").unwrap().unwrap();
    assert!(text.contains("\t@TRUE.1234\n\tD;JEQ\n"));
    assert!(text.contains("\t@CONTINUE.1234\n\t0;JMP\n(TRUE.1234)\n"));
    assert!(text.ends_with("\tM=-1\n(CONTINUE.1234)\n"));
    assert_eq!(later.label_counter(), 1235);
}

#[test]
fn greater_and_less_jump_on_their_own_condition() {
    let compare = |jump: &str| {
        format!(
            "\t@SP\n\tAM=M-1\n\tD=M\n\tA=A-1\n\tD=M-D\n\t@TRUE.0\n\tD;{}\n\t@SP\n\tA=M-1\n\tM=0\n\t@CONTINUE.0\n\t0;JMP\n(TRUE.0)\n\t@SP\n\tA=M-1\n\tM=-1\n(CONTINUE.0)\n",
            jump
        )
    };
    assert_eq!(one("gt"), format!("// gt\n{}", compare("JGT")));
    assert_eq!(one("lt"), format!("// lt\n{}", compare("JLT")));
    assert_eq!(one("eq"), format!("// eq\n{}", compare("JEQ")));
}

#[test]
fn static_names_carry_the_stem() {
    let out = translate_program("Foo", &source(&["push static 3", "pop static 3"])).unwrap();
    assert_eq!(
        out,
        format!(
            "{}{}{}",
            "// push static 3\n\t@Foo.3\n\tD=M\n\t@SP\n\tA=M\n\tM=D\n\t@SP\n\tM=M+1\n",
            "// pop static 3\n\t@SP\n\tAM=M-1\n\tD=M\n\t@Foo.3\n\tM=D\n",
            EPILOGUE
        )
    );
}

#[test]
fn empty_file_gives_the_epilogue_only() {
    assert_eq!(translate_program("Foo", &source(&[])).unwrap(), EPILOGUE);
    assert_eq!(
        translate_program("Foo", &source(&["", "// nothing", "   \t"])).unwrap(),
        EPILOGUE
    );
    assert_eq!(epilogue(), EPILOGUE);
    assert_eq!(CodeGenerator::new("Foo").translate(&source(&[])).unwrap(), "");
}

#[test]
fn temp_eight_is_rejected() {
    assert_eq!(
        translate_program("Foo", &source(&["push temp 8"])),
        rejected(1, VmErrorKind::IndexOutOfRange)
    );
    assert_eq!(
        translate_program("Foo", &source(&["add", "pop temp 8"])),
        rejected(2, VmErrorKind::IndexOutOfRange)
    );
}

#[test]
fn pointer_two_is_rejected() {
    assert_eq!(
        translate_program("Foo", &source(&["push pointer 2"])),
        rejected(1, VmErrorKind::IndexOutOfRange)
    );
    assert_eq!(
        translate_program("Foo", &source(&["pop pointer 2"])),
        rejected(1, VmErrorKind::IndexOutOfRange)
    );
}

#[test]
fn pop_constant_is_rejected() {
    assert_eq!(
        translate_program("Foo", &source(&["pop constant 5"])),
        rejected(1, VmErrorKind::PopConstant)
    );
    assert_eq!(refuses("pop constant 0"), VmErrorKind::PopConstant);
}

#[test]
fn operations_on_two_values() {
    let pop_two = "\t@SP\n\tAM=M-1\n\tD=M\n\tA=A-1\n";
    assert_eq!(one("add"), format!("// add\n{}\tM=D+M\n", pop_two));
    assert_eq!(one("sub"), format!("// sub\n{}\tM=D-M\n", pop_two));
    assert_eq!(one("and"), format!("// and\n{}\tM=D&M\n", pop_two));
    assert_eq!(one("or"), format!("// or\n{}\tM=D|M\n", pop_two));
}

#[test]
fn operations_on_the_top_value() {
    assert_eq!(one("neg"), "// neg\n\t@SP\n\tA=M-1\n\tM=-M\n");
    assert_eq!(one("not"), "// not\n\t@SP\n\tA=M-1\n\tM=!M\n");
}

#[test]
fn push_from_each_segment() {
    for (segment, base) in [("local", "LCL"), ("argument", "ARG"), ("this", "THIS"), ("that", "THAT")]
    {
        assert_eq!(
            one(&format!("push {} 12", segment)),
            format!(
                "// push {} 12\n\t@{}\n\tD=M\n\t@12\n\tA=D+A\n\tD=M\n{}",
                segment, base, PUSH_D
            )
        );
    }
    assert_eq!(one("push temp 0"), format!("// push temp 0\n\t@5\n\tD=M\n{}", PUSH_D));
    assert_eq!(one("push temp 7"), format!("// push temp 7\n\t@12\n\tD=M\n{}", PUSH_D));
    assert_eq!(one("push pointer 0"), format!("// push pointer 0\n\t@THIS\n\tD=M\n{}", PUSH_D));
    assert_eq!(one("push pointer 1"), format!("// push pointer 1\n\t@THAT\n\tD=M\n{}", PUSH_D));
    assert_eq!(one("push static 0"), format!("// push static 0\n\t@Foo.0\n\tD=M\n{}", PUSH_D));
    assert_eq!(
        one("push constant 32767"),
        format!("// push constant 32767\n\t@32767\n\tD=A\n{}", PUSH_D)
    );
    assert_eq!(one("push constant 007"), format!("// push constant 007\n\t@7\n\tD=A\n{}", PUSH_D));
}

#[test]
fn pop_into_each_segment() {
    for (segment, base) in [("local", "LCL"), ("argument", "ARG"), ("this", "THIS"), ("that", "THAT")]
    {
        assert_eq!(
            one(&format!("pop {} 3", segment)),
            format!(
                "// pop {} 3\n\t@{}\n\tD=M\n\t@3\n\tA=D+A\n\tD=A\n\t@R13\n\tM=D\n{}\t@R13\n\tA=M\n\tM=D\n",
                segment, base, POP_D
            )
        );
    }
    assert_eq!(one("pop temp 0"), format!("// pop temp 0\n{}\t@5\n\tM=D\n", POP_D));
    assert_eq!(one("pop temp 7"), format!("// pop temp 7\n{}\t@12\n\tM=D\n", POP_D));
    assert_eq!(one("pop pointer 0"), format!("// pop pointer 0\n{}\t@THIS\n\tM=D\n", POP_D));
    assert_eq!(one("pop pointer 1"), format!("// pop pointer 1\n{}\t@THAT\n\tM=D\n", POP_D));
    assert_eq!(one("pop static 240"), format!("// pop static 240\n{}\t@Foo.240\n\tM=D\n", POP_D));
}

#[test]
fn branching_is_scoped_by_the_function() {
    let mut generator = CodeGenerator::new("Foo");
    assert_eq!(
        generator.translate_line("label LOOP").unwrap().unwrap(),
        "// label LOOP\n(Foo$LOOP)\n"
    );
    assert_eq!(
        generator.translate_line("goto LOOP").unwrap().unwrap(),
        "// goto LOOP\n\t@Foo$LOOP\n\t0;JMP\n"
    );
    assert_eq!(
        generator.translate_line("if-goto LOOP").unwrap().unwrap(),
        format!("// if-goto LOOP\n{}\t@Foo$LOOP\n\tD;JNE\n", POP_D)
    );
    generator.translate_line("function Foo.main 0").unwrap();
    assert_eq!(
        generator.translate_line("label LOOP").unwrap().unwrap(),
        "// label LOOP\n(Foo.main$LOOP)\n"
    );
    assert_eq!(
        generator.translate_line("if-goto END").unwrap().unwrap(),
        format!("// if-goto END\n{}\t@Foo.main$END\n\tD;JNE\n", POP_D)
    );
    generator.begin_file("Bar");
    assert_eq!(
        generator.translate_line("goto X").unwrap().unwrap(),
        "// goto X\n\t@Bar$X\n\t0;JMP\n"
    );
    assert_eq!(
        generator.translate_line("push static 1").unwrap().unwrap(),
        format!("// push static 1\n\t@Bar.1\n\tD=M\n{}", PUSH_D)
    );
}

#[test]
fn function_sets_its_locals_to_zero() {
    assert_eq!(one("function Main.run 0"), "// function Main.run 0\n(Main.run)\n");
    let zero = format!("\t@0\n\tD=A\n{}", PUSH_D);
    assert_eq!(
        one("function Main.run 3"),
        format!("// function Main.run 3\n(Main.run)\n{}{}{}", zero, zero, zero)
    );
}

#[test]
fn call_saves_the_frame() {
    let mut generator = CodeGenerator::starting_at("Foo", 4);
    let save = |symbol: &str| format!("\t@{}\n\tD=M\n{}", symbol, PUSH_D);
    assert_eq!(
        generator.translate_line("call Math.mul 2").unwrap().unwrap(),
        format!(
            "// call Math.mul 2\n\t@RET.4\n\tD=A\n{}{}{}{}{}\t@SP\n\tD=M\n\t@7\n\tD=D-A\n\t@ARG\n\tM=D\n\t@SP\n\tD=M\n\t@LCL\n\tM=D\n\t@Math.mul\n\t0;JMP\n(RET.4)\n",
            PUSH_D,
            save("LCL"),
            save("ARG"),
            save("THIS"),
            save("THAT")
        )
    );
    assert_eq!(generator.label_counter(), 5);
    assert!(generator.translate_line("call f 32762").unwrap().unwrap().contains("\t@32767\n"));
    assert_eq!(generator.translate_line("call f 32763"), Err(VmErrorKind::IndexOutOfRange));
    assert_eq!(generator.label_counter(), 6);
}

#[test]
fn return_restores_the_frame() {
    let restore = |symbol: &str| format!("\t@R13\n\tAM=M-1\n\tD=M\n\t@{}\n\tM=D\n", symbol);
    assert_eq!(
        one("return"),
        format!(
            "// return\n\t@LCL\n\tD=M\n\t@R13\n\tM=D\n\t@5\n\tA=D-A\n\tD=M\n\t@R14\n\tM=D\n{}\t@ARG\n\tA=M\n\tM=D\n\t@ARG\n\tD=M+1\n\t@SP\n\tM=D\n{}{}{}{}\t@R14\n\tA=M\n\t0;JMP\n",
            POP_D,
            restore("THAT"),
            restore("THIS"),
            restore("ARG"),
            restore("LCL")
        )
    );
}

#[test]
fn echo_holds_the_line_as_it_was_read() {
    assert_eq!(
        one("   push \t constant    7   // seven"),
        format!("//    push \t constant    7   // seven\n\t@7\n\tD=A\n{}", PUSH_D)
    );
    assert_eq!(one("add//x"), "// add//x\n\t@SP\n\tAM=M-1\n\tD=M\n\tA=A-1\n\tM=D+M\n");
    assert_eq!(one("neg\r"), "// neg\r\n\t@SP\n\tA=M-1\n\tM=-M\n");
    let mut generator = CodeGenerator::new("Foo");
    assert_eq!(generator.translate_line("// push constant 7"), Ok(None));
    assert_eq!(generator.translate_line(""), Ok(None));
    assert_eq!(generator.translate_line(" \t"), Ok(None));
}

#[test]
fn unknown_words_are_rejected() {
    assert_eq!(refuses("mul"), VmErrorKind::UnknownCommand);
    assert_eq!(refuses("ADD"), VmErrorKind::UnknownCommand);
    assert_eq!(refuses("push 7"), VmErrorKind::MalformedCommand);
    assert_eq!(refuses("/ add"), VmErrorKind::UnknownCommand);
    assert_eq!(refuses("push heap 7"), VmErrorKind::UnknownSegment);
    assert_eq!(refuses("pop Local 7"), VmErrorKind::UnknownSegment);
    assert_eq!(refuses("push heap x"), VmErrorKind::UnknownSegment);
}

#[test]
fn malformed_commands_are_rejected() {
    assert_eq!(refuses("add 1"), VmErrorKind::MalformedCommand);
    assert_eq!(refuses("return 0"), VmErrorKind::MalformedCommand);
    assert_eq!(refuses("push"), VmErrorKind::MalformedCommand);
    assert_eq!(refuses("push constant"), VmErrorKind::MalformedCommand);
    assert_eq!(refuses("push constant 1 2"), VmErrorKind::MalformedCommand);
    assert_eq!(refuses("push constant x"), VmErrorKind::MalformedCommand);
    assert_eq!(refuses("push constant -1"), VmErrorKind::MalformedCommand);
    assert_eq!(refuses("push constant +1"), VmErrorKind::MalformedCommand);
    assert_eq!(refuses("pop temp 1.5"), VmErrorKind::MalformedCommand);
    assert_eq!(refuses("label"), VmErrorKind::MalformedCommand);
    assert_eq!(refuses("label A B"), VmErrorKind::MalformedCommand);
    assert_eq!(refuses("label 1A"), VmErrorKind::MalformedCommand);
    assert_eq!(refuses("goto a-b"), VmErrorKind::MalformedCommand);
    assert_eq!(refuses("if-goto"), VmErrorKind::MalformedCommand);
    assert_eq!(refuses("function f"), VmErrorKind::MalformedCommand);
    assert_eq!(refuses("function 9f 1"), VmErrorKind::MalformedCommand);
    assert_eq!(refuses("call f x"), VmErrorKind::MalformedCommand);
    assert_eq!(refuses("call f 1 2"), VmErrorKind::MalformedCommand);
}

#[test]
fn indices_end_at_32767() {
    assert_eq!(refuses("push constant 32768"), VmErrorKind::IndexOutOfRange);
    assert_eq!(refuses("pop local 99999999999999999999"), VmErrorKind::IndexOutOfRange);
    assert_eq!(refuses("pop constant 32768"), VmErrorKind::IndexOutOfRange);
    assert_eq!(refuses("function f 32768"), VmErrorKind::IndexOutOfRange);
    assert_eq!(refuses("push temp 32768"), VmErrorKind::IndexOutOfRange);
    assert!(one("push local 32767").contains("\t@32767\n\tA=D+A\n"));
}

#[test]
fn label_counter_cannot_pass_its_limit() {
    let mut generator = CodeGenerator::starting_at("Foo", usize::MAX - 1);
    assert!(generator
        .translate_line("eq")
        .unwrap()
        .unwrap()
        .contains(&format!("(TRUE.{})", usize::MAX - 1)));
    assert_eq!(generator.label_counter(), usize::MAX);
    assert_eq!(generator.translate_line("eq"), Err(VmErrorKind::LabelOverflow));
    assert_eq!(generator.translate_line("gt"), Err(VmErrorKind::LabelOverflow));
    assert_eq!(generator.translate_line("call f 0"), Err(VmErrorKind::LabelOverflow));
    assert_eq!(generator.translate_line("call f 32767"), Err(VmErrorKind::IndexOutOfRange));
    assert_eq!(generator.label_counter(), usize::MAX);
    assert!(generator.translate_line("add").is_ok());
}

#[test]
fn next_label_id_counts_from_zero() {
    let mut generator = CodeGenerator::new("Foo");
    assert_eq!(generator.label_counter(), 0);
    assert_eq!(generator.next_label_id(), 0);
    assert_eq!(generator.next_label_id(), 1);
    assert_eq!(generator.next_label_id(), 2);
    assert_eq!(generator.label_counter(), 3);
    assert!(generator.translate_line("lt").unwrap().unwrap().contains("(CONTINUE.3)"));
}

#[test]
fn comparisons_never_share_a_label() {
    let mut generator = CodeGenerator::new("Foo");
    let lines = source(&[
        "push constant 1", "push constant 2", "eq", "push constant 3", "lt", "gt", "call f 0",
        "eq", "label TRUE.0", "eq",
    ]);
    let text = generator.translate(&lines).unwrap();
    assert_eq!(generator.label_counter(), 6);
    for id in [0, 1, 2, 4, 5] {
        assert_eq!(text.matches(&format!("(TRUE.{})\n", id)).count(), 1);
        assert_eq!(text.matches(&format!("(CONTINUE.{})\n", id)).count(), 1);
        assert_eq!(text.matches(&format!("\t@TRUE.{}\n", id)).count(), 1);
        assert_eq!(text.matches(&format!("\t@CONTINUE.{}\n", id)).count(), 1);
    }
    assert_eq!(text.matches("(RET.3)\n").count(), 1);
    assert_eq!(text.matches("(TRUE.3)\n").count(), 0);
    assert_eq!(text.matches("(Foo$TRUE.0)\n").count(), 1);

    generator.begin_file("Bar");
    let more = generator.translate(&source(&["eq"])).unwrap();
    assert!(more.contains("(TRUE.6)\n"));
}

#[test]
fn same_source_gives_the_same_text() {
    let lines = source(&[
        "function Main.main 2", "push constant 7", "push static 1", "eq", "if-goto DONE",
        "call Main.main 0", "lt", "label DONE", "return",
    ]);
    let first = translate_program("Main", &lines).unwrap();
    let second = translate_program("Main", &lines).unwrap();
    assert_eq!(first, second);
    assert!(first.ends_with(EPILOGUE));
    let mut generator = CodeGenerator::new("Main");
    let body = generator.translate(&lines).unwrap();
    assert_eq!(first, format!("{}{}", body, EPILOGUE));
    assert_ne!(first, translate_program("Other", &lines).unwrap());
}

#[test]
fn rejected_line_leaves_the_generator_alone() {
    let mut generator = CodeGenerator::new("Foo");
    assert_eq!(
        generator.translate(&source(&["eq", "function f 1", "", "pop constant 1", "eq"])),
        rejected(4, VmErrorKind::PopConstant)
    );
    assert_eq!(generator.label_counter(), 1);
    assert_eq!(
        generator.translate_line("label L").unwrap().unwrap(),
        "// label L\n(f$L)\n"
    );
    assert_eq!(generator.translate_line("function g x"), Err(VmErrorKind::MalformedCommand));
    assert_eq!(
        generator.translate_line("label L").unwrap().unwrap(),
        "// label L\n(f$L)\n"
    );
}

#[test]
fn commands_are_parsed_into_variants() {
    let parse = |line: &str| {
        let words: Vec<String> = line.split(' ').map(|w| w.to_string()).collect();
        parse_command(&words)
    };
    assert_eq!(parse("add"), Ok(Command::Add));
    assert_eq!(parse("sub"), Ok(Command::Sub));
    assert_eq!(parse("and"), Ok(Command::And));
    assert_eq!(parse("or"), Ok(Command::Or));
    assert_eq!(parse("neg"), Ok(Command::Neg));
    assert_eq!(parse("not"), Ok(Command::Not));
    assert_eq!(parse("eq"), Ok(Command::Eq));
    assert_eq!(parse("gt"), Ok(Command::Gt));
    assert_eq!(parse("lt"), Ok(Command::Lt));
    assert_eq!(parse("return"), Ok(Command::Return));
    assert_eq!(parse("push temp 9"), Ok(Command::Push(Segment::Temp, 9)));
    assert_eq!(parse("pop constant 1"), Ok(Command::Pop(Segment::Constant, 1)));
    assert_eq!(parse("label a.b"), Ok(Command::Label("a.b".to_string())));
    assert_eq!(parse("goto a.b"), Ok(Command::Goto("a.b".to_string())));
    assert_eq!(parse("if-goto a.b"), Ok(Command::IfGoto("a.b".to_string())));
    assert_eq!(parse("function F 2"), Ok(Command::Function("F".to_string(), 2)));
    assert_eq!(parse("call F 32767"), Ok(Command::Call("F".to_string(), 32767)));
    assert_eq!(parse_command(&Vec::new()), Err(VmErrorKind::MalformedCommand));
    assert_eq!(parse(""), Err(VmErrorKind::UnknownCommand));
}

#[test]
fn commands_are_emitted_from_variants() {
    let mut generator = CodeGenerator::new("Foo");
    assert_eq!(
        generator.emit(&Command::Push(Segment::Constant, 7)).unwrap(),
        format!("\t@7\n\tD=A\n{}", PUSH_D)
    );
    assert_eq!(generator.emit(&Command::Push(Segment::Temp, 8)), Err(VmErrorKind::IndexOutOfRange));
    assert_eq!(generator.emit(&Command::Pop(Segment::Constant, 8)), Err(VmErrorKind::PopConstant));
    assert_eq!(generator.emit(&Command::Label("x".to_string())).unwrap(), "(Foo$x)\n");
    assert_eq!(generator.emit(&Command::Function("g".to_string(), 0)).unwrap(), "(g)\n");
    assert_eq!(generator.emit(&Command::Goto("x".to_string())).unwrap(), "\t@g$x\n\t0;JMP\n");
}

#[test]
fn words_are_read_as_segments_indices_and_names() {
    assert_eq!(parse_segment("local"), Some(Segment::Local));
    assert_eq!(parse_segment("argument"), Some(Segment::Argument));
    assert_eq!(parse_segment("this"), Some(Segment::This));
    assert_eq!(parse_segment("that"), Some(Segment::That));
    assert_eq!(parse_segment("temp"), Some(Segment::Temp));
    assert_eq!(parse_segment("pointer"), Some(Segment::Pointer));
    assert_eq!(parse_segment("static"), Some(Segment::Static));
    assert_eq!(parse_segment("constant"), Some(Segment::Constant));
    assert_eq!(parse_segment("const"), None);
    assert_eq!(parse_segment(""), None);
    assert_eq!(parse_index("0"), Ok(0));
    assert_eq!(parse_index("00032767"), Ok(32767));
    assert_eq!(parse_index("32768"), Err(VmErrorKind::IndexOutOfRange));
    assert_eq!(parse_index(""), Err(VmErrorKind::MalformedCommand));
    assert_eq!(parse_index("1e3"), Err(VmErrorKind::MalformedCommand));
    assert!(is_name("Main.f$1:x_"));
    assert!(!is_name(""));
    assert!(!is_name("1x"));
    assert!(!is_name("a b"));
}
