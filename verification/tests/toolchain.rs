use hack_toolchain::assembler::Assembler;
use hack_toolchain::generator::translate_program;
use std::path::PathBuf;

fn lines_of(text: &str) -> Vec<String> {
    text.lines().map(|line| line.to_string()).collect()
}

#[test]
fn translated_code_assembles() {
    let source = lines_of(
        "// every command once\n\
         function Main.main 2\n\
         push constant 7\n\
         push local 1\n\
         push argument 2\n\
         push this 3\n\
         push that 4\n\
         push temp 5\n\
         push pointer 0\n\
         push pointer 1\n\
         push static 6\n\
         add\n\
         sub\n\
         and\n\
         or\n\
         neg\n\
         not\n\
         eq\n\
         gt\n\
         lt\n\
         label LOOP\n\
         if-goto LOOP\n\
         goto END\n\
         call Main.helper 2\n\
         pop local 1\n\
         pop argument 2\n\
         pop this 3\n\
         pop that 4\n\
         pop temp 5\n\
         pop pointer 0\n\
         pop pointer 1\n\
         pop static 6\n\
         label END\n\
         return\n\
         function Main.helper 0\n\
         return\n",
    );
    let assembly = translate_program("Main", &source).unwrap();
    let lines = lines_of(&assembly);
    let mut assembler = Assembler::new(PathBuf::from("Main.asm"));
    assembler.initialize();
    let words = assembler.assemble(&lines).unwrap();

    let instructions = lines
        .iter()
        .filter(|line| line.starts_with('\t'))
        .count();
    let labels = lines.iter().filter(|line| line.starts_with('(')).count();
    let comments = lines.iter().filter(|line| line.starts_with("//")).count();
    assert_eq!(instructions + labels + comments, lines.len());
    assert_eq!(comments, 35);
    assert_eq!(labels, 12);
    assert_eq!(words.len(), instructions);

    assert_eq!(assembler.lookup("Main.main"), Some(0));
    assert_eq!(assembler.lookup("Main.6"), Some(16));
    assert_eq!(assembler.lookup("TRUE.1"), assembler.lookup("CONTINUE.0").map(|a| a + 12));
    assert!(assembler.lookup("Main.main$LOOP").is_some());
    assert!(assembler.lookup("Main.main$END").is_some());
    assert!(assembler.lookup("RET.3").is_some());
    assert_eq!(
        assembler.lookup("INFINITE_LOOP"),
        Some(words.len() as u16 - 2)
    );
    assert_eq!(words[words.len() - 1], "1110101010000111");
}
