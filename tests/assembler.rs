use hack_tools::assembler::{assemble, digit_to_binary, is_digit, trim_raw_code, AsmError};
use hack_tools::code::{comp, dest, jump};
use hack_tools::asm_parser::{self, CommandType};
use hack_tools::symbol_table;

fn lines(src: &[&str]) -> Vec<String> {
    src.iter().map(|s| s.to_string()).collect()
}

fn words(src: &[&str]) -> Vec<String> {
    assemble(lines(src)).unwrap()
}

#[test]
fn address_zero() {
    assert_eq!(words(&["@0"]), vec!["0000000000000000"]);
}

#[test]
fn increment_d() {
    assert_eq!(words(&["D=D+1"]), vec!["1110011111010000"]);
}

#[test]
fn unconditional_jump() {
    assert_eq!(words(&["0;JMP"]), vec!["1110101010000111"]);
}

#[test]
fn address_literals() {
    assert_eq!(words(&["@5", "@32767"]), vec!["0000000000000101", "0111111111111111"]);
}

#[test]
fn address_literal_too_large() {
    assert_eq!(assemble(lines(&["@1", "@32768"])), Err(AsmError::AddressOutOfRange(1)));
}

#[test]
fn unknown_computation() {
    assert_eq!(assemble(lines(&["@1", "D=Q"])), Err(AsmError::UnknownComputation(1)));
}

#[test]
fn labels_produce_no_words() {
    let out = words(&["(START)", "@START", "(MID)", "0;JMP", "(END)"]);
    assert_eq!(out.len(), 2);
}

#[test]
fn forward_and_backward_labels() {
    let out = words(&["@END", "0;JMP", "(LOOP)", "D=D-1", "@LOOP", "D;JGT", "(END)", "@END", "0;JMP"]);
    assert_eq!(out.len(), 7);
    // LOOP precedes the third instruction, END the sixth.
    assert_eq!(out[0], "0000000000000101");
    assert_eq!(out[3], "0000000000000010");
    assert_eq!(out[5], "0000000000000101");
}

#[test]
fn variables_from_sixteen() {
    let out = words(&["@i", "M=1", "@sum", "M=0", "@i", "D=M", "@x"]);
    assert_eq!(out[0], "0000000000010000");
    assert_eq!(out[2], "0000000000010001");
    assert_eq!(out[4], "0000000000010000");
    assert_eq!(out[6], "0000000000010010");
}

#[test]
fn predefined_symbols() {
    let out = words(&["@SP", "@R15", "@SCREEN", "@KBD", "@THAT"]);
    assert_eq!(
        out,
        vec![
            "0000000000000000",
            "0000000000001111",
            "0100000000000000",
            "0110000000000000",
            "0000000000000100"
        ]
    );
}

#[test]
fn label_declared_twice_keeps_the_last() {
    let out = words(&["(A)", "@A", "(A)", "@A"]);
    assert_eq!(out[0], "0000000000000001");
    assert_eq!(out[1], "0000000000000001");
}

#[test]
fn dest_comp_jump_together() {
    assert_eq!(words(&["AMD=M-1;JNE"]), vec!["1111110010111101"]);
    assert_eq!(words(&["MD=D|A"]), vec!["1110010101011000"]);
}

#[test]
fn code_tables() {
    assert_eq!(dest(&"AM".to_string()), "101");
    assert_eq!(dest(&"X".to_string()), "000");
    assert_eq!(comp(&"D&M".to_string()), "1000000");
    assert_eq!(comp(&"D*M".to_string()), "");
    assert_eq!(jump(&"JLE".to_string()), "110");
    assert_eq!(jump(&"".to_string()), "000");
}

#[test]
fn trims_comments_and_blank_lines() {
    let out = trim_raw_code(lines(&["// header", "", "  @2 // two", "\tD=A\r", "   "]));
    assert_eq!(out, vec!["@2", "D=A"]);
}

#[test]
fn numerals() {
    assert!(is_digit(&"123".to_string()));
    assert!(!is_digit(&"1a".to_string()));
    assert!(!is_digit(&"".to_string()));
    assert_eq!(digit_to_binary("21".to_string()), "000000000010101");
}

#[test]
fn symbol_table_entries() {
    let mut t = symbol_table::Create();
    assert!(t.contains(&"KBD".to_string()));
    assert!(!t.contains(&"foo".to_string()));
    t.addEntry("foo".to_string(), 99);
    assert_eq!(t.GetAddress(&"foo".to_string()), 99);
    t.addEntry("foo".to_string(), 7);
    assert_eq!(t.GetAddress(&"foo".to_string()), 7);
}

#[test]
fn whole_source_text() {
    let src = "// Adds 1 and 2\n@1\nD=A // one\n\n(LOOP)\n@LOOP\n0;JMP\n";
    assert_eq!(
        hack_tools::assembler::assemble_source(src),
        Ok("0000000000000001\n1110110000010000\n0000000000000010\n1110101010000111".to_string())
    );
    assert_eq!(hack_tools::assembler::assemble_source("D=X"), Err(AsmError::UnknownComputation(0)));
}

#[test]
fn empty_program() {
    assert_eq!(assemble(Vec::new()), Ok(Vec::new()));
    assert_eq!(hack_tools::assembler::assemble_source("// nothing\n"), Ok(String::new()));
}

#[test]
fn parser_fields() {
    let mut p = asm_parser::Create(lines(&["(LOOP)", "@sum", "AM=M+1;JGT", "0;JMP", "D=A", "A;B=C"]));
    assert_eq!(p.commandType(), CommandType::L_COMMAND);
    assert_eq!(p.symbol(), "LOOP");
    p.advance();
    assert_eq!(p.commandType(), CommandType::A_COMMAND);
    assert_eq!(p.symbol(), "sum");
    assert_eq!(p.getCurrentLineNumber(), 1);
    p.advance();
    assert_eq!(p.commandType(), CommandType::C_COMMAND);
    assert_eq!((p.dest(), p.comp(), p.jump()), ("AM".to_string(), "M+1".to_string(), "JGT".to_string()));
    p.advance();
    assert_eq!((p.dest(), p.comp(), p.jump()), ("".to_string(), "0".to_string(), "JMP".to_string()));
    p.advance();
    assert_eq!((p.dest(), p.comp(), p.jump()), ("D".to_string(), "A".to_string(), "".to_string()));
    p.advance();
    assert_eq!((p.dest(), p.comp(), p.jump()), ("A;B".to_string(), "B".to_string(), "B=C".to_string()));
    p.advance();
    assert!(!p.hasMoreCommands());
}
