//! The two-pass assembler: labels first, then one binary word per instruction.
use vstd::prelude::*;
use vstd::string::*;
use crate::asm_parser::{self, comp_of, dest_of, jump_of, kind_of, symbol_of, CommandType};
use crate::code::{self, comp_code, dest_code, jump_code};
use crate::lines::{clean_lines, code_lines, join_lines, joined, split_at_newlines, split_lines, texts};
use crate::numbers::{
    binary, decimal_value, is_decimal, lemma_binary_len, parse_decimal, push_binary,
};
use crate::symbol_table::{self, predefined};
use crate::text::chars_of;

verus! {

/// Why a program cannot be assembled.
#[derive(Clone, Copy, Debug, PartialEq, Eq, Structural)]
pub enum AsmError {
    /// The instruction at this position names no known computation.
    UnknownComputation(usize),
    /// The instruction at this position loads an address beyond 15 bits.
    AddressOutOfRange(usize),
}

/// The largest address that an address instruction can load.
pub const MAX_ADDRESS: usize = 32767;

/// The address of the first variable.
pub const FIRST_VARIABLE: usize = 16;

/// Whether `l` declares a label.
pub open spec fn is_label_line(l: Seq<char>) -> bool {
    kind_of(l) == CommandType::L_COMMAND
}

/// How many of the first `n` lines are instructions, not labels.
pub open spec fn emitted(lines: Seq<Seq<char>>, n: nat) -> nat
    decreases n,
{
    if n == 0 {
        0
    } else if is_label_line(lines[n - 1]) {
        emitted(lines, (n - 1) as nat)
    } else {
        emitted(lines, (n - 1) as nat) + 1
    }
}

/// The instructions among the first `n` lines, in order: labels left out.
pub open spec fn stripped(lines: Seq<Seq<char>>, n: nat) -> Seq<Seq<char>>
    decreases n,
{
    if n == 0 {
        Seq::empty()
    } else if is_label_line(lines[n - 1]) {
        stripped(lines, (n - 1) as nat)
    } else {
        stripped(lines, (n - 1) as nat).push(lines[n - 1])
    }
}

/// The table after the labels among the first `n` lines are declared: each
/// label stands for the number of instructions before it.
pub open spec fn labels(lines: Seq<Seq<char>>, n: nat) -> Map<Seq<char>, nat>
    decreases n,
{
    if n == 0 {
        predefined()
    } else if is_label_line(lines[n - 1]) {
        labels(lines, (n - 1) as nat).insert(symbol_of(lines[n - 1]), emitted(lines, (n - 1) as nat))
    } else {
        labels(lines, (n - 1) as nat)
    }
}

/// Whether the address instruction `l` brings in a new variable.
pub open spec fn allocates(l: Seq<char>, t: Map<Seq<char>, nat>) -> bool {
    kind_of(l) == CommandType::A_COMMAND && !is_decimal(symbol_of(l)) && !t.contains_key(
        symbol_of(l),
    )
}

/// The address that the address instruction `l` loads, given the table and
/// the address of the next variable.
pub open spec fn address_of(l: Seq<char>, t: Map<Seq<char>, nat>, next: nat) -> nat {
    let s = symbol_of(l);
    if is_decimal(s) {
        decimal_value(s)
    } else if t.contains_key(s) {
        t[s]
    } else {
        next
    }
}

/// The table after the instruction `l`.
pub open spec fn table_after(l: Seq<char>, t: Map<Seq<char>, nat>, next: nat) -> Map<
    Seq<char>,
    nat,
> {
    if allocates(l, t) {
        t.insert(symbol_of(l), next)
    } else {
        t
    }
}

/// The address of the next variable after the instruction `l`.
pub open spec fn next_after(l: Seq<char>, t: Map<Seq<char>, nat>, next: nat) -> nat {
    if allocates(l, t) {
        next + 1
    } else {
        next
    }
}

/// The word of the computation instruction `l`, if its computation is known.
pub open spec fn compute_word(l: Seq<char>) -> Option<Seq<char>> {
    match comp_code(comp_of(l)) {
        Some(c) => Some(
            seq!['1', '1', '1'] + binary(c, 7) + binary(dest_code(dest_of(l)), 3) + binary(
                jump_code(jump_of(l)),
                3,
            ),
        ),
        None => None,
    }
}

/// The word of the address instruction that loads `a`.
pub open spec fn address_word(a: nat) -> Seq<char> {
    seq!['0'] + binary(a, 15)
}

/// The word of the instruction `l` at position `pos`.
pub open spec fn encode_line(l: Seq<char>, t: Map<Seq<char>, nat>, next: nat, pos: nat) -> Result<
    Seq<char>,
    AsmError,
> {
    if kind_of(l) == CommandType::A_COMMAND {
        let a = address_of(l, t, next);
        if a <= MAX_ADDRESS {
            Ok(address_word(a))
        } else {
            Err(AsmError::AddressOutOfRange(pos as usize))
        }
    } else {
        match compute_word(l) {
            Some(w) => Ok(w),
            None => Err(AsmError::UnknownComputation(pos as usize)),
        }
    }
}

/// `p` put in front of the words of `r`.
pub open spec fn prepend(p: Seq<Seq<char>>, r: Result<Seq<Seq<char>>, AsmError>) -> Result<
    Seq<Seq<char>>,
    AsmError,
> {
    match r {
        Ok(rest) => Ok(p + rest),
        Err(e) => Err(e),
    }
}

/// The words of the instructions from position `i` on, or the first error.
pub open spec fn encode_from(
    instrs: Seq<Seq<char>>,
    i: nat,
    t: Map<Seq<char>, nat>,
    next: nat,
) -> Result<Seq<Seq<char>>, AsmError>
    decreases instrs.len() - i,
{
    if i >= instrs.len() {
        Ok(Seq::empty())
    } else {
        let l = instrs[i as int];
        match encode_line(l, t, next, i) {
            Err(e) => Err(e),
            Ok(w) => prepend(
                seq![w],
                encode_from(instrs, i + 1, table_after(l, t, next), next_after(l, t, next)),
            ),
        }
    }
}

/// What assembling `lines` gives: one word per instruction, or an error.
pub open spec fn assembled(lines: Seq<Seq<char>>) -> Result<Seq<Seq<char>>, AsmError> {
    encode_from(
        stripped(lines, lines.len()),
        0,
        labels(lines, lines.len()),
        FIRST_VARIABLE as nat,
    )
}

/// The code lines of a source: comments removed, trimmed, empty ones dropped.
pub fn trim_raw_code(lines: Vec<String>) -> (r: Vec<String>)
    ensures
        texts(r@) == clean_lines(texts(lines@)),
        forall|i: int| 0 <= i < r@.len() ==> (#[trigger] r@[i])@.len() > 0,
{
    code_lines(&lines)
}

/// Whether `input` is a decimal numeral.
pub fn is_digit(input: &String) -> (r: bool)
    ensures
        r == is_decimal(input@),
{
    let v = chars_of(input.as_str());
    if v.len() == 0 {
        return false;
    }
    let mut i: usize = 0;
    while i < v.len()
        invariant
            i <= v@.len(),
            v@ == input@,
            forall|j: int| 0 <= j < i ==> crate::numbers::is_digit_char(#[trigger] v@[j]),
        decreases v.len() - i,
    {
        if !('0' <= v[i] && v[i] <= '9') {
            return false;
        }
        i += 1;
    }
    true
}

/// The 15 bits of the decimal numeral `input`.
pub fn digit_to_binary(input: String) -> (r: String)
    requires
        is_decimal(input@),
        decimal_value(input@) <= MAX_ADDRESS,
    ensures
        r@ == binary(decimal_value(input@), 15),
{
    let v = chars_of(input.as_str());
    let mut r = String::new();
    match parse_decimal(&v, MAX_ADDRESS as u64) {
        Some(n) => push_binary(&mut r, n, 15),
        None => {},
    }
    r
}

proof fn lemma_prepend_push(p: Seq<Seq<char>>, w: Seq<char>, r: Result<Seq<Seq<char>>, AsmError>)
    ensures
        prepend(p, prepend(seq![w], r)) == prepend(p.push(w), r),
{
    if let Ok(rest) = r {
        assert(p + (seq![w] + rest) =~= p.push(w) + rest);
    }
}

/// Assembles `lines`, non-empty code lines, into one word per instruction.
pub fn assemble(lines: Vec<String>) -> (r: Result<Vec<String>, AsmError>)
    requires
        forall|i: int| 0 <= i < lines@.len() ==> (#[trigger] lines@[i])@.len() > 0,
    ensures
        match r {
            Ok(v) => assembled(texts(lines@)) == Ok::<Seq<Seq<char>>, AsmError>(texts(v@)),
            Err(e) => assembled(texts(lines@)) == Err::<Seq<Seq<char>>, AsmError>(e),
        },
        r matches Ok(v) ==> v@.len() == emitted(texts(lines@), lines@.len()),
{
    let ghost src = texts(lines@);
    let mut table = symbol_table::Create();
    let mut p = asm_parser::Create(lines);
    let mut count: usize = 0;
    let mut kept: Vec<String> = Vec::new();
    while p.hasMoreCommands()
        invariant
            p.lines_view() == src,
            src == texts(lines@),
            forall|i: int| 0 <= i < src.len() ==> (#[trigger] src[i]).len() > 0,
            p.index() <= src.len(),
            table.wf(),
            table@ == labels(src, p.index()),
            count == emitted(src, p.index()),
            count <= p.index(),
            texts(kept@) == stripped(src, p.index()),
            forall|i: int| 0 <= i < kept@.len() ==> (#[trigger] kept@[i])@.len() > 0,
        decreases src.len() - p.index(),
    {
        if p.commandType() == CommandType::L_COMMAND {
            table.addEntry(p.symbol(), count);
        } else {
            let l = p.line_text();
            kept.push(l);
            count += 1;
            assert(texts(kept@) =~= stripped(src, p.index()).push(l@));
        }
        p.advance();
    }
    let ghost instrs = texts(kept@);
    let ghost t0 = table@;
    let mut q = asm_parser::Create(kept);
    let mut next: usize = FIRST_VARIABLE;
    let mut out: Vec<String> = Vec::new();
    while q.hasMoreCommands()
        invariant
            q.lines_view() == instrs,
            forall|i: int| 0 <= i < instrs.len() ==> (#[trigger] instrs[i]).len() > 0,
            q.index() <= instrs.len(),
            out@.len() == q.index(),
            src == texts(lines@),
            table.wf(),
            FIRST_VARIABLE <= next <= MAX_ADDRESS + 1,
            assembled(src) == encode_from(instrs, 0, t0, FIRST_VARIABLE as nat),
            encode_from(instrs, 0, t0, FIRST_VARIABLE as nat) == prepend(
                texts(out@),
                encode_from(instrs, q.index(), table@, next as nat),
            ),
        decreases instrs.len() - q.index(),
    {
        let pos = q.getCurrentLineNumber();
        let ghost l = q.line();
        let ghost t = table@;
        let ghost n0 = next as nat;
        let mut word = String::new();
        if q.commandType() == CommandType::A_COMMAND {
            let sym = q.symbol();
            if is_digit(&sym) {
                let v = chars_of(sym.as_str());
                if parse_decimal(&v, MAX_ADDRESS as u64).is_none() {
                    assert(encode_from(instrs, q.index(), t, n0) == Err::<Seq<Seq<char>>, AsmError>(
                        AsmError::AddressOutOfRange(pos),
                    ));
                    return Err(AsmError::AddressOutOfRange(pos));
                }
                word.push('0');
                word.append(digit_to_binary(sym).as_str());
            } else {
                let known = table.contains(&sym);
                let a: usize = if known {
                    table.GetAddress(&sym)
                } else {
                    next
                };
                if a > MAX_ADDRESS {
                    assert(encode_from(instrs, q.index(), t, n0) == Err::<Seq<Seq<char>>, AsmError>(
                        AsmError::AddressOutOfRange(pos),
                    ));
                    return Err(AsmError::AddressOutOfRange(pos));
                }
                if !known {
                    table.addEntry(sym, next);
                    next += 1;
                }
                word.push('0');
                push_binary(&mut word, a as u64, 15);
            }
            assert(word@ =~= address_word(address_of(l, t, n0)));
        } else {
            let c = code::comp(&q.comp());
            proof {
                if let Some(cc) = comp_code(comp_of(l)) {
                    lemma_binary_len(cc, 7);
                }
            }
            if c.as_str().is_empty() {
                assert(encode_from(instrs, q.index(), t, n0) == Err::<Seq<Seq<char>>, AsmError>(
                    AsmError::UnknownComputation(pos),
                ));
                return Err(AsmError::UnknownComputation(pos));
            }
            word.push('1');
            word.push('1');
            word.push('1');
            word.append(c.as_str());
            word.append(code::dest(&q.dest()).as_str());
            word.append(code::jump(&q.jump()).as_str());
            assert(compute_word(l) == Some(word@));
        }
        let ghost before = texts(out@);
        proof {
            assert(table@ == table_after(l, t, n0));
            lemma_prepend_push(before, word@, encode_from(instrs, q.index() + 1, table@, next as nat));
        }
        out.push(word);
        assert(texts(out@) =~= before.push(word@));
        q.advance();
    }
    assert(texts(out@) + Seq::empty() =~= texts(out@));
    proof {
        crate::assembler_laws::lemma_one_word_per_instruction(src);
    }
    Ok(out)
}

/// Assembles a whole source text into its binary text: one word per line,
/// with no line feed after the last.
pub fn assemble_source(contents: &str) -> (r: Result<String, AsmError>)
    ensures
        match assembled(clean_lines(split_lines(contents@))) {
            Ok(ws) => r matches Ok(t) && t@ == joined(ws),
            Err(e) => r == Err::<String, AsmError>(e),
        },
{
    let lines = trim_raw_code(split_at_newlines(contents));
    match assemble(lines) {
        Ok(words) => Ok(join_lines(&words)),
        Err(e) => Err(e),
    }
}

} // verus!
