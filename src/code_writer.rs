//! Lowering stack commands to assembly.
use vstd::prelude::*;
use vstd::string::*;
use crate::lines::{joined, join_lines, texts};
use crate::numbers::{int_text, nat_text, push_decimal, push_signed};
use crate::text::{chars_of, same_text, slice_chars, string_of};
use crate::vm_parser::{CommandType, VmError};

verus! {

/// The code of `add`.
pub open spec fn add_code() -> Seq<Seq<char>> {
    seq!["@SP"@, "AM=M-1"@, "D=M"@, "@SP"@, "AM=M-1"@, "M=D+M"@, "@SP"@, "M=M+1"@]
}

/// The code of `sub`.
pub open spec fn sub_code() -> Seq<Seq<char>> {
    seq!["@SP"@, "AM=M-1"@, "D=M"@, "@SP"@, "AM=M-1"@, "M=M-D"@, "@SP"@, "M=M+1"@]
}

/// The code of `neg`.
pub open spec fn neg_code() -> Seq<Seq<char>> {
    seq!["@SP"@, "A=M-1"@, "M=-M"@]
}

/// The code of `and`.
pub open spec fn and_code() -> Seq<Seq<char>> {
    seq!["@SP"@, "AM=M-1"@, "D=M"@, "@SP"@, "A=M-1"@, "M=D&M"@]
}

/// The code of `or`.
pub open spec fn or_code() -> Seq<Seq<char>> {
    seq!["@SP"@, "AM=M-1"@, "D=M"@, "@SP"@, "A=M-1"@, "M=D|M"@]
}

/// The code of `not`.
pub open spec fn not_code() -> Seq<Seq<char>> {
    seq!["@SP"@, "A=M-1"@, "M=!M"@]
}

/// The jump target of the comparison numbered `n`.
pub open spec fn label_ref(n: nat) -> Seq<char> {
    "@comp_"@ + nat_text(n)
}

/// The label declaration of the comparison numbered `n`.
pub open spec fn label_decl(n: nat) -> Seq<char> {
    "(comp_"@ + nat_text(n) + ")"@
}

/// The code of a comparison that jumps by `jump`, numbered `n`.
pub open spec fn compare_code(jump: Seq<char>, n: nat) -> Seq<Seq<char>> {
    seq!["@SP"@, "AM=M-1"@, "D=M"@, "@SP"@, "A=M-1"@, "D=M-D"@, "M=-1"@] + seq![label_ref(n), jump] + seq!["@SP"@, "A=M-1"@, "M=0"@] + seq![label_decl(n)]
}

/// Whether `cmd` is one of the three comparisons.
pub open spec fn is_comparison(cmd: Seq<char>) -> bool {
    cmd == "eq"@ || cmd == "gt"@ || cmd == "lt"@
}

/// How many comparison numbers the command `cmd` uses up.
pub open spec fn label_step(cmd: Seq<char>) -> nat {
    if is_comparison(cmd) {
        1
    } else {
        0
    }
}

/// The six operations that are not comparisons are told apart from them.
proof fn lemma_not_comparisons()
    ensures
        !is_comparison("add"@),
        !is_comparison("sub"@),
        !is_comparison("neg"@),
        !is_comparison("and"@),
        !is_comparison("or"@),
        !is_comparison("not"@),
{
    reveal_strlit("add");
    reveal_strlit("sub");
    reveal_strlit("neg");
    reveal_strlit("and");
    reveal_strlit("or");
    reveal_strlit("not");
    reveal_strlit("eq");
    reveal_strlit("gt");
    reveal_strlit("lt");
    assert("add"@.len() != "eq"@.len() && "sub"@.len() != "eq"@.len() && "neg"@.len() != "eq"@.len());
    assert("and"@.len() != "eq"@.len() && "not"@.len() != "eq"@.len());
    assert("add"@.len() != "gt"@.len() && "add"@.len() != "lt"@.len());
    assert("or"@[0] != "eq"@[0] && "or"@[0] != "gt"@[0] && "or"@[0] != "lt"@[0]);
}

/// The code of the arithmetic or logical command `cmd`, the next comparison
/// being numbered `n`.
pub open spec fn arithmetic_code(cmd: Seq<char>, n: nat) -> Result<Seq<Seq<char>>, VmError> {
    if cmd == "add"@ {
        Ok(add_code())
    } else if cmd == "sub"@ {
        Ok(sub_code())
    } else if cmd == "neg"@ {
        Ok(neg_code())
    } else if cmd == "eq"@ {
        Ok(compare_code("D;JEQ"@, n))
    } else if cmd == "gt"@ {
        Ok(compare_code("D;JGT"@, n))
    } else if cmd == "lt"@ {
        Ok(compare_code("D;JLT"@, n))
    } else if cmd == "and"@ {
        Ok(and_code())
    } else if cmd == "or"@ {
        Ok(or_code())
    } else if cmd == "not"@ {
        Ok(not_code())
    } else {
        Err(VmError::UnknownCommand)
    }
}

/// The line that loads the index `i`.
pub open spec fn index_line(i: int) -> Seq<char> {
    seq!['@'] + int_text(i)
}

/// The symbol of slot `i` of the static segment of `unit`.
pub open spec fn static_symbol(unit: Seq<char>, i: int) -> Seq<char> {
    unit + seq!['.'] + int_text(i)
}

/// The end of each push: the value in D goes on top of the stack.
pub open spec fn push_tail() -> Seq<Seq<char>> {
    seq!["@SP"@, "A=M"@, "M=D"@, "@SP"@, "M=M+1"@]
}

/// The end of each pop through R13: the top of the stack goes where R13 points.
pub open spec fn pop_tail() -> Seq<Seq<char>> {
    seq!["@R13"@, "M=D"@, "@SP"@, "AM=M-1"@, "D=M"@, "@R13"@, "A=M"@, "M=D"@]
}

/// A push from a segment whose base is held in the register `base`.
pub open spec fn push_indirect(base: Seq<char>, i: int) -> Seq<Seq<char>> {
    seq![index_line(i), "D=A"@, base, "A=M+D"@, "D=M"@] + push_tail()
}

/// A push from a segment at the fixed address `base`.
pub open spec fn push_direct(base: Seq<char>, i: int) -> Seq<Seq<char>> {
    seq![index_line(i), "D=A"@, base, "A=A+D"@, "D=M"@] + push_tail()
}

/// A pop to a segment whose base is held in the register `base`.
pub open spec fn pop_indirect(base: Seq<char>, i: int) -> Seq<Seq<char>> {
    seq![index_line(i), "D=A"@, base, "D=M+D"@] + pop_tail()
}

/// A pop to a segment at the fixed address `base`.
pub open spec fn pop_direct(base: Seq<char>, i: int) -> Seq<Seq<char>> {
    seq![index_line(i), "D=A"@, base, "D=A+D"@] + pop_tail()
}

/// The code of `push seg i` in the unit `unit`.
pub open spec fn push_code(seg: Seq<char>, i: int, unit: Seq<char>) -> Result<Seq<Seq<char>>, VmError> {
    if seg == "local"@ {
        Ok(push_indirect("@LCL"@, i))
    } else if seg == "argument"@ {
        Ok(push_indirect("@ARG"@, i))
    } else if seg == "this"@ {
        Ok(push_indirect("@THIS"@, i))
    } else if seg == "that"@ {
        Ok(push_indirect("@THAT"@, i))
    } else if seg == "pointer"@ {
        Ok(push_direct("@3"@, i))
    } else if seg == "temp"@ {
        Ok(push_direct("@5"@, i))
    } else if seg == "constant"@ {
        Ok(seq![index_line(i), "D=A"@] + push_tail())
    } else if seg == "static"@ {
        Ok(seq![seq!['@'] + static_symbol(unit, i), "D=M"@] + push_tail())
    } else {
        Err(VmError::UnknownSegment)
    }
}

/// The code of `pop seg i` in the unit `unit`.
pub open spec fn pop_code(seg: Seq<char>, i: int, unit: Seq<char>) -> Result<Seq<Seq<char>>, VmError> {
    if seg == "local"@ {
        Ok(pop_indirect("@LCL"@, i))
    } else if seg == "argument"@ {
        Ok(pop_indirect("@ARG"@, i))
    } else if seg == "this"@ {
        Ok(pop_indirect("@THIS"@, i))
    } else if seg == "that"@ {
        Ok(pop_indirect("@THAT"@, i))
    } else if seg == "pointer"@ {
        Ok(pop_direct("@3"@, i))
    } else if seg == "temp"@ {
        Ok(pop_direct("@5"@, i))
    } else if seg == "constant"@ {
        Err(VmError::PopConstant)
    } else if seg == "static"@ {
        Ok(seq!["@SP"@, "AM=M-1"@, "D=M"@, seq!['@'] + static_symbol(unit, i), "M=D"@])
    } else {
        Err(VmError::UnknownSegment)
    }
}

/// The code of a push or pop command.
pub open spec fn push_pop_code(command: CommandType, seg: Seq<char>, i: int, unit: Seq<char>) -> Result<
    Seq<Seq<char>>,
    VmError,
> {
    match command {
        CommandType::C_PUSH => push_code(seg, i, unit),
        CommandType::C_POP => pop_code(seg, i, unit),
        _ => Err(VmError::NotPushPop),
    }
}

/// What follows the last `c` in `s`; all of `s` when it holds none.
pub open spec fn tail_after(s: Seq<char>, c: char) -> Seq<char>
    decreases s.len(),
{
    if s.len() == 0 {
        Seq::empty()
    } else if s.last() == c {
        Seq::empty()
    } else {
        tail_after(s.drop_last(), c).push(s.last())
    }
}

/// The position of the first `.vm` at or after `i`, or the length.
pub open spec fn ext_at(s: Seq<char>, i: int) -> int
    decreases s.len() - i,
{
    if i + 2 >= s.len() {
        s.len() as int
    } else if s[i] == '.' && s[i + 1] == 'v' && s[i + 2] == 'm' {
        i
    } else {
        ext_at(s, i + 1)
    }
}

/// The unit name of a source path: its last component, cut before `.vm`.
pub open spec fn unit_name(path: Seq<char>) -> Seq<char> {
    let b = tail_after(tail_after(path, '/'), '\\');
    b.take(ext_at(b, 0))
}

/// What follows the last `c` in `v`.
pub fn tail_after_char(v: &Vec<char>, c: char) -> (r: Vec<char>)
    ensures
        r@ == tail_after(v@, c),
{
    let mut j: usize = v.len();
    assert(v@.take(j as int) =~= v@);
    assert(v@.skip(j as int) =~= Seq::<char>::empty());
    assert(tail_after(v@, c) + Seq::<char>::empty() =~= tail_after(v@, c));
    while j > 0 && v[j - 1] != c
        invariant
            j <= v@.len(),
            tail_after(v@, c) == tail_after(v@.take(j as int), c) + v@.skip(j as int),
        decreases j,
    {
        assert(v@.take(j as int).drop_last() =~= v@.take(j - 1));
        assert(tail_after(v@.take(j - 1), c).push(v@[j - 1]) + v@.skip(j as int) =~= tail_after(
            v@.take(j - 1),
            c,
        ) + v@.skip(j - 1));
        j -= 1;
    }
    assert(v@.take(v@.len() as int) =~= v@);
    assert(tail_after(v@.take(j as int), c) =~= Seq::<char>::empty());
    assert(v@.skip(j as int) =~= v@.subrange(j as int, v@.len() as int));
    slice_chars(v, j, v.len())
}

/// Emits assembly for a sequence of stack commands.
pub struct CodeWriter {
    filename_output: String,
    contents: Vec<String>,
    label_count: usize,
    filename_vm: String,
}

impl CodeWriter {
    /// The assembly lines emitted so far.
    pub closed spec fn code(&self) -> Seq<Seq<char>> {
        texts(self.contents@)
    }

    /// The number of the next comparison.
    pub closed spec fn label_count(&self) -> nat {
        self.label_count as nat
    }

    /// The name of the current unit.
    pub closed spec fn unit(&self) -> Seq<char> {
        self.filename_vm@
    }

    /// The name of the file the code is meant for.
    pub closed spec fn output_name(&self) -> Seq<char> {
        self.filename_output@
    }

    /// A writer with no code, meant for the file `filename`.
    pub fn create(filename: String) -> (r: CodeWriter)
        ensures
            r.code() == Seq::<Seq<char>>::empty(),
            r.label_count() == 0,
            r.unit() == Seq::<char>::empty(),
            r.output_name() == filename@,
    {
        let r = CodeWriter {
            filename_output: filename,
            contents: Vec::new(),
            label_count: 0,
            filename_vm: String::new(),
        };
        assert(r.code() =~= Seq::<Seq<char>>::empty());
        r
    }

    /// Starts the unit whose source lies at `filename`.
    #[allow(non_snake_case)]
    pub fn setFileName(&mut self, filename: &String)
        ensures
            final(self).unit() == unit_name(filename@),
            final(self).code() == old(self).code(),
            final(self).label_count() == old(self).label_count(),
            final(self).output_name() == old(self).output_name(),
    {
        self.filename_vm = Self::get_vm_filename_from_full_path(filename);
    }

    fn get_vm_filename_from_full_path(path: &String) -> (r: String)
        ensures
            r@ == unit_name(path@),
    {
        let v = chars_of(path.as_str());
        let a = tail_after_char(&v, '/');
        let b = tail_after_char(&a, '\\');
        let mut k: usize = 0;
        while k < b.len() && b.len() - k > 2 && !(b[k] == '.' && b[k + 1] == 'v' && b[k + 2] == 'm')
            invariant
                k <= b@.len(),
                ext_at(b@, k as int) == ext_at(b@, 0),
            decreases b.len() - k,
        {
            k += 1;
        }
        if k >= b.len() || b.len() - k <= 2 {
            k = b.len();
        }
        string_of(&slice_chars(&b, 0, k))
    }

    /// The code as one text, lines separated by line feeds.
    pub fn contents(&self) -> (r: String)
        ensures
            r@ == joined(self.code()),
    {
        join_lines(&self.contents)
    }

    /// The name of the file the code is meant for.
    pub fn output_file(&self) -> (r: String)
        ensures
            r@ == self.output_name(),
    {
        self.filename_output.clone()
    }

    /// The number of the next comparison.
    pub fn labels_used(&self) -> (r: usize)
        ensures
            r == self.label_count(),
    {
        self.label_count
    }

    fn emit(&mut self, line: &str)
        ensures
            final(self).code() == old(self).code().push(line@),
            final(self).label_count() == old(self).label_count(),
            final(self).unit() == old(self).unit(),
            final(self).output_name() == old(self).output_name(),
    {
        self.emit_string(String::from_str(line));
    }

    fn emit_string(&mut self, line: String)
        ensures
            final(self).code() == old(self).code().push(line@),
            final(self).label_count() == old(self).label_count(),
            final(self).unit() == old(self).unit(),
            final(self).output_name() == old(self).output_name(),
    {
        let ghost before = self.code();
        self.contents.push(line);
        assert(self.code() =~= before.push(line@));
    }

    fn emit_index(&mut self, index: i32)
        ensures
            final(self).code() == old(self).code().push(index_line(index as int)),
            final(self).label_count() == old(self).label_count(),
            final(self).unit() == old(self).unit(),
            final(self).output_name() == old(self).output_name(),
    {
        let mut s = String::new();
        s.push('@');
        push_signed(&mut s, index);
        assert(s@ =~= index_line(index as int));
        self.emit_string(s);
    }

    fn emit_static(&mut self, index: i32)
        ensures
            final(self).code() == old(self).code().push(seq!['@'] + static_symbol(old(self).unit(), index as int)),
            final(self).label_count() == old(self).label_count(),
            final(self).unit() == old(self).unit(),
            final(self).output_name() == old(self).output_name(),
    {
        let vm_name = self.filename_vm.clone();
        let mut s = String::new();
        s.push('@');
        s.append(vm_name.as_str());
        s.push('.');
        push_signed(&mut s, index);
        assert(s@ =~= seq!['@'] + static_symbol(self.unit(), index as int));
        self.emit_string(s);
    }

    fn arithmetic_add(&mut self)
        ensures
            final(self).code() == old(self).code() + add_code(),
            final(self).label_count() == old(self).label_count(),
            final(self).unit() == old(self).unit(),
            final(self).output_name() == old(self).output_name(),
    {
        self.emit("@SP");
        self.emit("AM=M-1");
        self.emit("D=M");
        self.emit("@SP");
        self.emit("AM=M-1");
        self.emit("M=D+M");
        self.emit("@SP");
        self.emit("M=M+1");
        assert(self.code() =~= old(self).code() + add_code());
    }

    fn arithmetic_sub(&mut self)
        ensures
            final(self).code() == old(self).code() + sub_code(),
            final(self).label_count() == old(self).label_count(),
            final(self).unit() == old(self).unit(),
            final(self).output_name() == old(self).output_name(),
    {
        self.emit("@SP");
        self.emit("AM=M-1");
        self.emit("D=M");
        self.emit("@SP");
        self.emit("AM=M-1");
        self.emit("M=M-D");
        self.emit("@SP");
        self.emit("M=M+1");
        assert(self.code() =~= old(self).code() + sub_code());
    }

    fn arithmetic_neg(&mut self)
        ensures
            final(self).code() == old(self).code() + neg_code(),
            final(self).label_count() == old(self).label_count(),
            final(self).unit() == old(self).unit(),
            final(self).output_name() == old(self).output_name(),
    {
        self.emit("@SP");
        self.emit("A=M-1");
        self.emit("M=-M");
        assert(self.code() =~= old(self).code() + neg_code());
    }

    fn arithmetic_and(&mut self)
        ensures
            final(self).code() == old(self).code() + and_code(),
            final(self).label_count() == old(self).label_count(),
            final(self).unit() == old(self).unit(),
            final(self).output_name() == old(self).output_name(),
    {
        self.emit("@SP");
        self.emit("AM=M-1");
        self.emit("D=M");
        self.emit("@SP");
        self.emit("A=M-1");
        self.emit("M=D&M");
        assert(self.code() =~= old(self).code() + and_code());
    }

    fn arithmetic_or(&mut self)
        ensures
            final(self).code() == old(self).code() + or_code(),
            final(self).label_count() == old(self).label_count(),
            final(self).unit() == old(self).unit(),
            final(self).output_name() == old(self).output_name(),
    {
        self.emit("@SP");
        self.emit("AM=M-1");
        self.emit("D=M");
        self.emit("@SP");
        self.emit("A=M-1");
        self.emit("M=D|M");
        assert(self.code() =~= old(self).code() + or_code());
    }

    fn arithmetic_not(&mut self)
        ensures
            final(self).code() == old(self).code() + not_code(),
            final(self).label_count() == old(self).label_count(),
            final(self).unit() == old(self).unit(),
            final(self).output_name() == old(self).output_name(),
    {
        self.emit("@SP");
        self.emit("A=M-1");
        self.emit("M=!M");
        assert(self.code() =~= old(self).code() + not_code());
    }

    fn arithmetic_eq(&mut self)
        requires
            old(self).label_count() < usize::MAX,
        ensures
            final(self).code() == old(self).code() + compare_code("D;JEQ"@, old(self).label_count()),
            final(self).label_count() == old(self).label_count() + 1,
            final(self).unit() == old(self).unit(),
            final(self).output_name() == old(self).output_name(),
    {
        self.arithmetic_compare("D;JEQ");
    }

    fn arithmetic_gt(&mut self)
        requires
            old(self).label_count() < usize::MAX,
        ensures
            final(self).code() == old(self).code() + compare_code("D;JGT"@, old(self).label_count()),
            final(self).label_count() == old(self).label_count() + 1,
            final(self).unit() == old(self).unit(),
            final(self).output_name() == old(self).output_name(),
    {
        self.arithmetic_compare("D;JGT");
    }

    fn arithmetic_lt(&mut self)
        requires
            old(self).label_count() < usize::MAX,
        ensures
            final(self).code() == old(self).code() + compare_code("D;JLT"@, old(self).label_count()),
            final(self).label_count() == old(self).label_count() + 1,
            final(self).unit() == old(self).unit(),
            final(self).output_name() == old(self).output_name(),
    {
        self.arithmetic_compare("D;JLT");
    }

    fn arithmetic_compare(&mut self, jump: &str)
        requires
            old(self).label_count() < usize::MAX,
        ensures
            final(self).code() == old(self).code() + compare_code(jump@, old(self).label_count()),
            final(self).label_count() == old(self).label_count() + 1,
            final(self).unit() == old(self).unit(),
            final(self).output_name() == old(self).output_name(),
    {
        let number = self.label_count;
        self.emit("@SP");
        self.emit("AM=M-1");
        self.emit("D=M");
        self.emit("@SP");
        self.emit("A=M-1");
        self.emit("D=M-D");
        self.emit("M=-1");
        let mut target = String::from_str("@comp_");
        push_decimal(&mut target, number as u64);
        assert(target@ == label_ref(number as nat));
        self.emit_string(target);
        self.emit(jump);
        self.emit("@SP");
        self.emit("A=M-1");
        self.emit("M=0");
        let mut decl = String::from_str("(comp_");
        push_decimal(&mut decl, number as u64);
        decl.push(')');
        proof {
            reveal_strlit(")");
        }
        assert(decl@ =~= label_decl(number as nat));
        self.emit_string(decl);
        assert(self.code() =~= old(self).code() + compare_code(jump@, old(self).label_count()));
        self.label_count = number + 1;
    }

    fn stack_push_local(&mut self, index: i32)
        ensures
            final(self).code() == old(self).code() + push_indirect("@LCL"@, index as int),
            final(self).label_count() == old(self).label_count(),
            final(self).unit() == old(self).unit(),
            final(self).output_name() == old(self).output_name(),
    {
        self.emit_index(index);
        self.emit("D=A");
        self.emit("@LCL");
        self.emit("A=M+D");
        self.emit("D=M");
        self.emit("@SP");
        self.emit("A=M");
        self.emit("M=D");
        self.emit("@SP");
        self.emit("M=M+1");
        assert(self.code() =~= old(self).code() + push_indirect("@LCL"@, index as int));
    }

    fn stack_push_argument(&mut self, index: i32)
        ensures
            final(self).code() == old(self).code() + push_indirect("@ARG"@, index as int),
            final(self).label_count() == old(self).label_count(),
            final(self).unit() == old(self).unit(),
            final(self).output_name() == old(self).output_name(),
    {
        self.emit_index(index);
        self.emit("D=A");
        self.emit("@ARG");
        self.emit("A=M+D");
        self.emit("D=M");
        self.emit("@SP");
        self.emit("A=M");
        self.emit("M=D");
        self.emit("@SP");
        self.emit("M=M+1");
        assert(self.code() =~= old(self).code() + push_indirect("@ARG"@, index as int));
    }

    fn stack_push_this(&mut self, index: i32)
        ensures
            final(self).code() == old(self).code() + push_indirect("@THIS"@, index as int),
            final(self).label_count() == old(self).label_count(),
            final(self).unit() == old(self).unit(),
            final(self).output_name() == old(self).output_name(),
    {
        self.emit_index(index);
        self.emit("D=A");
        self.emit("@THIS");
        self.emit("A=M+D");
        self.emit("D=M");
        self.emit("@SP");
        self.emit("A=M");
        self.emit("M=D");
        self.emit("@SP");
        self.emit("M=M+1");
        assert(self.code() =~= old(self).code() + push_indirect("@THIS"@, index as int));
    }

    fn stack_push_that(&mut self, index: i32)
        ensures
            final(self).code() == old(self).code() + push_indirect("@THAT"@, index as int),
            final(self).label_count() == old(self).label_count(),
            final(self).unit() == old(self).unit(),
            final(self).output_name() == old(self).output_name(),
    {
        self.emit_index(index);
        self.emit("D=A");
        self.emit("@THAT");
        self.emit("A=M+D");
        self.emit("D=M");
        self.emit("@SP");
        self.emit("A=M");
        self.emit("M=D");
        self.emit("@SP");
        self.emit("M=M+1");
        assert(self.code() =~= old(self).code() + push_indirect("@THAT"@, index as int));
    }

    fn stack_push_pointer(&mut self, index: i32)
        ensures
            final(self).code() == old(self).code() + push_direct("@3"@, index as int),
            final(self).label_count() == old(self).label_count(),
            final(self).unit() == old(self).unit(),
            final(self).output_name() == old(self).output_name(),
    {
        self.emit_index(index);
        self.emit("D=A");
        self.emit("@3");
        self.emit("A=A+D");
        self.emit("D=M");
        self.emit("@SP");
        self.emit("A=M");
        self.emit("M=D");
        self.emit("@SP");
        self.emit("M=M+1");
        assert(self.code() =~= old(self).code() + push_direct("@3"@, index as int));
    }

    fn stack_push_temp(&mut self, index: i32)
        ensures
            final(self).code() == old(self).code() + push_direct("@5"@, index as int),
            final(self).label_count() == old(self).label_count(),
            final(self).unit() == old(self).unit(),
            final(self).output_name() == old(self).output_name(),
    {
        self.emit_index(index);
        self.emit("D=A");
        self.emit("@5");
        self.emit("A=A+D");
        self.emit("D=M");
        self.emit("@SP");
        self.emit("A=M");
        self.emit("M=D");
        self.emit("@SP");
        self.emit("M=M+1");
        assert(self.code() =~= old(self).code() + push_direct("@5"@, index as int));
    }

    fn stack_push_constant(&mut self, index: i32)
        ensures
            final(self).code() == old(self).code() + seq![index_line(index as int), "D=A"@] + push_tail(),
            final(self).label_count() == old(self).label_count(),
            final(self).unit() == old(self).unit(),
            final(self).output_name() == old(self).output_name(),
    {
        self.emit_index(index);
        self.emit("D=A");
        self.emit("@SP");
        self.emit("A=M");
        self.emit("M=D");
        self.emit("@SP");
        self.emit("M=M+1");
        assert(self.code() =~= old(self).code() + seq![index_line(index as int), "D=A"@] + push_tail());
    }

    fn stack_push_static(&mut self, index: i32)
        ensures
            final(self).code() == old(self).code() + seq![seq!['@'] + static_symbol(old(self).unit(), index as int), "D=M"@] + push_tail(),
            final(self).label_count() == old(self).label_count(),
            final(self).unit() == old(self).unit(),
            final(self).output_name() == old(self).output_name(),
    {
        self.emit_static(index);
        self.emit("D=M");
        self.emit("@SP");
        self.emit("A=M");
        self.emit("M=D");
        self.emit("@SP");
        self.emit("M=M+1");
        assert(self.code() =~= old(self).code() + seq![seq!['@'] + static_symbol(old(self).unit(), index as int), "D=M"@] + push_tail());
    }

    fn stack_pop_local(&mut self, index: i32)
        ensures
            final(self).code() == old(self).code() + pop_indirect("@LCL"@, index as int),
            final(self).label_count() == old(self).label_count(),
            final(self).unit() == old(self).unit(),
            final(self).output_name() == old(self).output_name(),
    {
        self.emit_index(index);
        self.emit("D=A");
        self.emit("@LCL");
        self.emit("D=M+D");
        self.emit("@R13");
        self.emit("M=D");
        self.emit("@SP");
        self.emit("AM=M-1");
        self.emit("D=M");
        self.emit("@R13");
        self.emit("A=M");
        self.emit("M=D");
        assert(self.code() =~= old(self).code() + pop_indirect("@LCL"@, index as int));
    }

    fn stack_pop_argument(&mut self, index: i32)
        ensures
            final(self).code() == old(self).code() + pop_indirect("@ARG"@, index as int),
            final(self).label_count() == old(self).label_count(),
            final(self).unit() == old(self).unit(),
            final(self).output_name() == old(self).output_name(),
    {
        self.emit_index(index);
        self.emit("D=A");
        self.emit("@ARG");
        self.emit("D=M+D");
        self.emit("@R13");
        self.emit("M=D");
        self.emit("@SP");
        self.emit("AM=M-1");
        self.emit("D=M");
        self.emit("@R13");
        self.emit("A=M");
        self.emit("M=D");
        assert(self.code() =~= old(self).code() + pop_indirect("@ARG"@, index as int));
    }

    fn stack_pop_this(&mut self, index: i32)
        ensures
            final(self).code() == old(self).code() + pop_indirect("@THIS"@, index as int),
            final(self).label_count() == old(self).label_count(),
            final(self).unit() == old(self).unit(),
            final(self).output_name() == old(self).output_name(),
    {
        self.emit_index(index);
        self.emit("D=A");
        self.emit("@THIS");
        self.emit("D=M+D");
        self.emit("@R13");
        self.emit("M=D");
        self.emit("@SP");
        self.emit("AM=M-1");
        self.emit("D=M");
        self.emit("@R13");
        self.emit("A=M");
        self.emit("M=D");
        assert(self.code() =~= old(self).code() + pop_indirect("@THIS"@, index as int));
    }

    fn stack_pop_that(&mut self, index: i32)
        ensures
            final(self).code() == old(self).code() + pop_indirect("@THAT"@, index as int),
            final(self).label_count() == old(self).label_count(),
            final(self).unit() == old(self).unit(),
            final(self).output_name() == old(self).output_name(),
    {
        self.emit_index(index);
        self.emit("D=A");
        self.emit("@THAT");
        self.emit("D=M+D");
        self.emit("@R13");
        self.emit("M=D");
        self.emit("@SP");
        self.emit("AM=M-1");
        self.emit("D=M");
        self.emit("@R13");
        self.emit("A=M");
        self.emit("M=D");
        assert(self.code() =~= old(self).code() + pop_indirect("@THAT"@, index as int));
    }

    fn stack_pop_pointer(&mut self, index: i32)
        ensures
            final(self).code() == old(self).code() + pop_direct("@3"@, index as int),
            final(self).label_count() == old(self).label_count(),
            final(self).unit() == old(self).unit(),
            final(self).output_name() == old(self).output_name(),
    {
        self.emit_index(index);
        self.emit("D=A");
        self.emit("@3");
        self.emit("D=A+D");
        self.emit("@R13");
        self.emit("M=D");
        self.emit("@SP");
        self.emit("AM=M-1");
        self.emit("D=M");
        self.emit("@R13");
        self.emit("A=M");
        self.emit("M=D");
        assert(self.code() =~= old(self).code() + pop_direct("@3"@, index as int));
    }

    fn stack_pop_temp(&mut self, index: i32)
        ensures
            final(self).code() == old(self).code() + pop_direct("@5"@, index as int),
            final(self).label_count() == old(self).label_count(),
            final(self).unit() == old(self).unit(),
            final(self).output_name() == old(self).output_name(),
    {
        self.emit_index(index);
        self.emit("D=A");
        self.emit("@5");
        self.emit("D=A+D");
        self.emit("@R13");
        self.emit("M=D");
        self.emit("@SP");
        self.emit("AM=M-1");
        self.emit("D=M");
        self.emit("@R13");
        self.emit("A=M");
        self.emit("M=D");
        assert(self.code() =~= old(self).code() + pop_direct("@5"@, index as int));
    }

    fn stack_pop_static(&mut self, index: i32)
        ensures
            final(self).code() == old(self).code() + seq!["@SP"@, "AM=M-1"@, "D=M"@, seq!['@'] + static_symbol(old(self).unit(), index as int), "M=D"@],
            final(self).label_count() == old(self).label_count(),
            final(self).unit() == old(self).unit(),
            final(self).output_name() == old(self).output_name(),
    {
        self.emit("@SP");
        self.emit("AM=M-1");
        self.emit("D=M");
        self.emit_static(index);
        self.emit("M=D");
        assert(self.code() =~= old(self).code() + seq!["@SP"@, "AM=M-1"@, "D=M"@, seq!['@'] + static_symbol(old(self).unit(), index as int), "M=D"@]);
    }

    fn stack_push(&mut self, segment: &str, index: i32) -> (r: Result<(), VmError>)
        ensures
            match push_code(segment@, index as int, old(self).unit()) {
                Ok(c) => r is Ok && final(self).code() == old(self).code() + c,
                Err(e) => r == Err::<(), VmError>(e) && final(self).code() == old(self).code(),
            },
            final(self).label_count() == old(self).label_count(),
            final(self).unit() == old(self).unit(),
            final(self).output_name() == old(self).output_name(),
    {
        if same_text(segment, "local") {
            self.stack_push_local(index);
        } else if same_text(segment, "argument") {
            self.stack_push_argument(index);
        } else if same_text(segment, "this") {
            self.stack_push_this(index);
        } else if same_text(segment, "that") {
            self.stack_push_that(index);
        } else if same_text(segment, "pointer") {
            self.stack_push_pointer(index);
        } else if same_text(segment, "temp") {
            self.stack_push_temp(index);
        } else if same_text(segment, "constant") {
            self.stack_push_constant(index);
        } else if same_text(segment, "static") {
            self.stack_push_static(index);
        } else {
            return Err(VmError::UnknownSegment);
        }
        Ok(())
    }

    fn stack_pop(&mut self, segment: &str, index: i32) -> (r: Result<(), VmError>)
        ensures
            match pop_code(segment@, index as int, old(self).unit()) {
                Ok(c) => r is Ok && final(self).code() == old(self).code() + c,
                Err(e) => r == Err::<(), VmError>(e) && final(self).code() == old(self).code(),
            },
            final(self).label_count() == old(self).label_count(),
            final(self).unit() == old(self).unit(),
            final(self).output_name() == old(self).output_name(),
    {
        if same_text(segment, "local") {
            self.stack_pop_local(index);
        } else if same_text(segment, "argument") {
            self.stack_pop_argument(index);
        } else if same_text(segment, "this") {
            self.stack_pop_this(index);
        } else if same_text(segment, "that") {
            self.stack_pop_that(index);
        } else if same_text(segment, "pointer") {
            self.stack_pop_pointer(index);
        } else if same_text(segment, "temp") {
            self.stack_pop_temp(index);
        } else if same_text(segment, "constant") {
            return Err(VmError::PopConstant);
        } else if same_text(segment, "static") {
            self.stack_pop_static(index);
        } else {
            return Err(VmError::UnknownSegment);
        }
        Ok(())
    }

    /// Emits the code of the arithmetic or logical command `command`.
    #[allow(non_snake_case)]
    pub fn writeArithmetic(&mut self, command: &str) -> (r: Result<(), VmError>)
        ensures
            if is_comparison(command@) && old(self).label_count() == usize::MAX {
                r == Err::<(), VmError>(VmError::LabelsExhausted) && final(self).code() == old(
                    self,
                ).code() && final(self).label_count() == old(self).label_count()
            } else {
                match arithmetic_code(command@, old(self).label_count()) {
                    Ok(c) => r is Ok && final(self).code() == old(self).code() + c
                        && final(self).label_count() == old(self).label_count() + label_step(command@),
                    Err(e) => r == Err::<(), VmError>(e) && final(self).code() == old(self).code()
                        && final(self).label_count() == old(self).label_count(),
                }
            },
            final(self).unit() == old(self).unit(),
            final(self).output_name() == old(self).output_name(),
    {
        proof {
            lemma_not_comparisons();
        }
        let cmp = same_text(command, "eq") || same_text(command, "gt") || same_text(command, "lt");
        if cmp && self.label_count == usize::MAX {
            return Err(VmError::LabelsExhausted);
        }
        if same_text(command, "add") {
            self.arithmetic_add();
        } else if same_text(command, "sub") {
            self.arithmetic_sub();
        } else if same_text(command, "neg") {
            self.arithmetic_neg();
        } else if same_text(command, "eq") {
            self.arithmetic_eq();
        } else if same_text(command, "gt") {
            self.arithmetic_gt();
        } else if same_text(command, "lt") {
            self.arithmetic_lt();
        } else if same_text(command, "and") {
            self.arithmetic_and();
        } else if same_text(command, "or") {
            self.arithmetic_or();
        } else if same_text(command, "not") {
            self.arithmetic_not();
        } else {
            return Err(VmError::UnknownCommand);
        }
        Ok(())
    }

    /// Emits the code of a push or pop command.
    #[allow(non_snake_case)]
    pub fn writePushPop(&mut self, command: CommandType, segment: &str, index: i32) -> (r: Result<
        (),
        VmError,
    >)
        ensures
            match push_pop_code(command, segment@, index as int, old(self).unit()) {
                Ok(c) => r is Ok && final(self).code() == old(self).code() + c,
                Err(e) => r == Err::<(), VmError>(e) && final(self).code() == old(self).code(),
            },
            final(self).label_count() == old(self).label_count(),
            final(self).unit() == old(self).unit(),
            final(self).output_name() == old(self).output_name(),
    {
        match command {
            CommandType::C_PUSH => self.stack_push(segment, index),
            CommandType::C_POP => self.stack_pop(segment, index),
            _ => Err(VmError::NotPushPop),
        }
    }
}

} // verus!
