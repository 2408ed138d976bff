use hack_tools::assembler::{assemble, trim_raw_code};
use hack_tools::code_writer::CodeWriter;
use hack_tools::translator::{select_sources, translate_unit, validate_file_extension};
use hack_tools::vm_parser::{CommandType, Parser, VmError};

/// Runs the words on a machine whose stack pointer starts at 256 and whose
/// segment registers are set by `init`; returns the memory when the program
/// runs off its end.
fn simulate(words: &[String], init: &[(usize, i16)]) -> Vec<i16> {
    let rom: Vec<u16> = words.iter().map(|w| u16::from_str_radix(w, 2).unwrap()).collect();
    let mut ram = vec![0i16; 32768];
    ram[0] = 256;
    for &(addr, value) in init {
        ram[addr] = value;
    }
    let (mut a, mut d, mut pc): (i16, i16, usize) = (0, 0, 0);
    let mut steps = 0;
    while pc < rom.len() {
        steps += 1;
        assert!(steps < 100_000, "program does not end");
        let ins = rom[pc];
        if ins & 0x8000 == 0 {
            a = ins as i16;
            pc += 1;
            continue;
        }
        let m = ram[a as u16 as usize];
        let y = if ins & 0x1000 != 0 { m } else { a };
        let c = (ins >> 6) & 0x3f;
        let mut x = d;
        let mut y = y;
        if c & 0x20 != 0 { x = 0; }
        if c & 0x10 != 0 { x = !x; }
        if c & 0x08 != 0 { y = 0; }
        if c & 0x04 != 0 { y = !y; }
        let mut out = if c & 0x02 != 0 { x.wrapping_add(y) } else { x & y };
        if c & 0x01 != 0 { out = !out; }
        let old_a = a;
        if ins & 0x08 != 0 { ram[old_a as u16 as usize] = out; }
        if ins & 0x20 != 0 { a = out; }
        if ins & 0x10 != 0 { d = out; }
        let jump = (ins & 0x4 != 0 && out < 0) || (ins & 0x2 != 0 && out == 0) || (ins & 0x1 != 0 && out > 0);
        pc = if jump { old_a as u16 as usize } else { pc + 1 };
    }
    ram
}

fn translate(units: &[(&str, &str)]) -> CodeWriter {
    let mut w = CodeWriter::create("out.asm".to_string());
    for (path, src) in units {
        translate_unit(&mut w, &path.to_string(), src.to_string()).unwrap();
    }
    w
}

fn run(src: &str, init: &[(usize, i16)]) -> Vec<i16> {
    let w = translate(&[("Main.vm", src)]);
    let lines = trim_raw_code(w.contents().split('\n').map(String::from).collect());
    let words = assemble(lines).unwrap();
    simulate(&words, init)
}

#[test]
fn add_leaves_the_sum() {
    let ram = run("push constant 7\npush constant 8\nadd\n", &[]);
    assert_eq!(ram[0], 257);
    assert_eq!(ram[256], 15);
}

#[test]
fn eq_of_equal_values_is_true() {
    let ram = run("push constant 7\npush constant 7\neq\n", &[]);
    assert_eq!(ram[0], 257);
    assert_eq!(ram[256], -1);
}

#[test]
fn eq_of_different_values_is_false() {
    let ram = run("push constant 7\npush constant 8\neq\n", &[]);
    assert_eq!(ram[0], 257);
    assert_eq!(ram[256], 0);
}

#[test]
fn not_complements() {
    let ram = run("push constant 7\nnot\n", &[]);
    assert_eq!(ram[0], 257);
    assert_eq!(ram[256], -8);
}

#[test]
fn other_operations() {
    let ram = run(
        "push constant 9\npush constant 4\nsub\npush constant 3\nneg\npush constant 12\npush constant 10\nand\npush constant 12\npush constant 10\nor\n",
        &[],
    );
    assert_eq!(ram[0], 260);
    assert_eq!(&ram[256..260], &[5, -3, 8, 14]);
    let ram = run("push constant 3\npush constant 2\ngt\npush constant 3\npush constant 2\nlt\n", &[]);
    assert_eq!(&ram[256..258], &[-1, 0]);
}

#[test]
fn push_segment_code() {
    let w = translate(&[("Main.vm", "push local 2\npush pointer 1")]);
    assert_eq!(
        w.contents(),
        "@2\nD=A\n@LCL\nA=M+D\nD=M\n@SP\nA=M\nM=D\n@SP\nM=M+1\n\
         @1\nD=A\n@3\nA=A+D\nD=M\n@SP\nA=M\nM=D\n@SP\nM=M+1"
    );
}

#[test]
fn pop_segment_code() {
    let w = translate(&[("Main.vm", "pop argument 3\npop temp 6")]);
    assert_eq!(
        w.contents(),
        "@3\nD=A\n@ARG\nD=M+D\n@R13\nM=D\n@SP\nAM=M-1\nD=M\n@R13\nA=M\nM=D\n\
         @6\nD=A\n@5\nD=A+D\n@R13\nM=D\n@SP\nAM=M-1\nD=M\n@R13\nA=M\nM=D"
    );
}

#[test]
fn this_and_that_code() {
    let w = translate(&[("Main.vm", "push this 0\npop that 4")]);
    let text = w.contents();
    assert!(text.starts_with("@0\nD=A\n@THIS\nA=M+D\n"));
    assert!(text.contains("@4\nD=A\n@THAT\nD=M+D\n@R13\n"));
}

#[test]
fn segment_sums_are_outside_the_computation_table() {
    assert_eq!(
        assemble(vec!["@LCL".to_string(), "A=M+D".to_string()]),
        Err(hack_tools::assembler::AsmError::UnknownComputation(1))
    );
}

#[test]
fn push_constant_code() {
    let w = translate(&[("Main.vm", "push constant 7")]);
    assert_eq!(w.contents(), "@7\nD=A\n@SP\nA=M\nM=D\n@SP\nM=M+1");
}

#[test]
fn pop_constant_fails() {
    let mut w = CodeWriter::create("out.asm".to_string());
    let r = translate_unit(&mut w, &"Main.vm".to_string(), "push constant 1\npop constant 5\n".to_string());
    assert_eq!(r, Err(VmError::PopConstant));
    let mut w = CodeWriter::create("out.asm".to_string());
    assert_eq!(w.writePushPop(CommandType::C_POP, "constant", 0), Err(VmError::PopConstant));
    assert_eq!(w.contents(), "");
}

#[test]
fn comparison_labels_are_distinct() {
    let w = translate(&[("A.vm", "push constant 1\npush constant 1\neq\npush constant 1\neq\n"), ("B.vm", "push constant 2\npush constant 2\neq\n")]);
    let text = w.contents();
    assert!(text.contains("(comp_0)"));
    assert!(text.contains("(comp_1)"));
    assert!(text.contains("(comp_2)"));
    assert!(text.contains("@comp_2\nD;JEQ"));
    assert_eq!(w.labels_used(), 3);
}

#[test]
fn static_slots_are_per_unit() {
    let w = translate(&[
        ("dir/Foo.vm", "push constant 1\npop static 0\n"),
        ("C:\\dir\\Bar.vm", "push constant 2\npop static 0\npush static 0\n"),
    ]);
    let text = w.contents();
    assert!(text.contains("@Foo.0"));
    assert!(text.contains("@Bar.0"));
    let lines = trim_raw_code(text.split('\n').map(String::from).collect());
    let ram = simulate(&assemble(lines).unwrap(), &[]);
    assert_eq!(ram[16], 1);
    assert_eq!(ram[17], 2);
    assert_eq!(ram[256], 2);
}

#[test]
fn translation_errors() {
    let mut w = CodeWriter::create("out.asm".to_string());
    let path = "Main.vm".to_string();
    assert_eq!(translate_unit(&mut w, &path, "label LOOP".to_string()), Err(VmError::UnknownCommand));
    assert_eq!(translate_unit(&mut w, &path, "push constant".to_string()), Err(VmError::MissingArgument));
    assert_eq!(translate_unit(&mut w, &path, "push constant x".to_string()), Err(VmError::BadIndex));
    assert_eq!(translate_unit(&mut w, &path, "push heap 1".to_string()), Err(VmError::UnknownSegment));
    assert_eq!(w.writeArithmetic("mul"), Err(VmError::UnknownCommand));
    assert_eq!(w.writePushPop(CommandType::C_ARITHMETIC, "local", 1), Err(VmError::NotPushPop));
}

#[test]
fn parser_reads_words() {
    let mut p = Parser::create("// comment\n  push local -3 // here\r\npop that +4\n\nneg".to_string());
    assert!(p.hasMoreCommands());
    assert_eq!(p.commandType(), Ok(CommandType::C_PUSH));
    assert_eq!(p.arg0(), "push");
    assert_eq!(p.arg1(), Ok("local".to_string()));
    assert_eq!(p.arg2(), Ok(-3));
    p.advance();
    assert_eq!(p.commandType(), Ok(CommandType::C_POP));
    assert_eq!(p.arg2(), Ok(4));
    p.advance();
    assert_eq!(p.commandType(), Ok(CommandType::C_ARITHMETIC));
    assert_eq!(p.arg1(), Err(VmError::MissingArgument));
    p.advance();
    assert!(!p.hasMoreCommands());
}

#[test]
fn negative_index_text() {
    let w = translate(&[("Main.vm", "push temp -2")]);
    assert!(w.contents().starts_with("@-2\n"));
}

#[test]
fn source_extensions() {
    assert!(validate_file_extension(&"Foo.vm".to_string()));
    assert!(validate_file_extension(&"a.b.vm".to_string()));
    assert!(!validate_file_extension(&"Foo.vmx".to_string()));
    assert!(!validate_file_extension(&"vm".to_string()));
    let picked = select_sources(&vec!["x/A.vm".to_string(), "x/notes.txt".to_string(), "x/B.vm".to_string()]);
    assert_eq!(picked, vec!["x/A.vm".to_string(), "x/B.vm".to_string()]);
}

#[test]
fn writer_keeps_its_output_name() {
    let mut w = CodeWriter::create("prog.asm".to_string());
    w.setFileName(&"src/Prog.vm".to_string());
    assert_eq!(w.writePushPop(CommandType::C_PUSH, "static", 5), Ok(()));
    assert_eq!(w.output_file(), "prog.asm");
    assert_eq!(w.contents(), "@Prog.5\nD=M\n@SP\nA=M\nM=D\n@SP\nM=M+1");
}

#[test]
fn words_are_separated_by_any_white_space() {
    let mut p = Parser::create("push\tconstant\t7\npop  local   2\n".to_string());
    assert_eq!(p.commandType(), Ok(CommandType::C_PUSH));
    assert_eq!(p.arg0(), "push");
    assert_eq!(p.arg1(), Ok("constant".to_string()));
    assert_eq!(p.arg2(), Ok(7));
    p.advance();
    assert_eq!(p.commandType(), Ok(CommandType::C_POP));
    assert_eq!(p.arg1(), Ok("local".to_string()));
    assert_eq!(p.arg2(), Ok(2));
    let ram = run("push\tconstant 7\npush constant\t8\nadd\t\n", &[]);
    assert_eq!(ram[256], 15);
}

#[test]
fn static_slots_land_apart_after_assembly() {
    let w = translate(&[("Foo.vm", "push constant 5\npop static 3\n"), ("Bar.vm", "push constant 6\npop static 3\n")]);
    let lines = trim_raw_code(w.contents().split('\n').map(String::from).collect());
    let words = assemble(lines.clone()).unwrap();
    let foo = lines.iter().filter(|l| !l.starts_with('(')).position(|l| l == "@Foo.3").unwrap();
    let bar = lines.iter().filter(|l| !l.starts_with('(')).position(|l| l == "@Bar.3").unwrap();
    assert_eq!(words[foo], "0000000000010000");
    assert_eq!(words[bar], "0000000000010001");
}
