//! What holds of every translation.
use vstd::prelude::*;
use crate::asm_parser::symbol_of;
use crate::assembler::{assembled, is_label_line, labels, stripped};
use crate::assembler_laws::lemma_distinct_variables;
use crate::code_writer::{label_decl, label_ref, pop_code, push_pop_code, static_symbol};
use crate::numbers::is_decimal;
use crate::symbol_table::predefined;
use crate::numbers::{int_text, lemma_nat_text_injective, nat_text};
use crate::translator::{line_code, translate_from};
use crate::vm_parser::{command_kind, index_value, word, CommandType, VmError};

verus! {

/// `pop constant` has no code, whatever the index and the unit.
pub proof fn lemma_pop_constant_rejected(i: int, unit: Seq<char>)
    ensures
        pop_code("constant"@, i, unit) == Err::<Seq<Seq<char>>, VmError>(VmError::PopConstant),
        push_pop_code(CommandType::C_POP, "constant"@, i, unit) == Err::<Seq<Seq<char>>, VmError>(
            VmError::PopConstant,
        ),
{
    reveal_strlit("constant");
    reveal_strlit("local");
    reveal_strlit("argument");
    reveal_strlit("this");
    reveal_strlit("that");
    reveal_strlit("pointer");
    reveal_strlit("temp");
    let c = "constant"@;
    assert(c.len() != "local"@.len());
    assert(c[0] != "argument"@[0]);
    assert(c.len() != "this"@.len());
    assert(c.len() != "that"@.len());
    assert(c.len() != "pointer"@.len());
    assert(c.len() != "temp"@.len());
}

/// A line that fails whatever the count of comparisons makes the whole unit
/// fail, wherever it stands.
proof fn lemma_failing_line(lines: Seq<Seq<char>>, i: nat, j: nat, unit: Seq<char>, n: nat)
    requires
        i <= j < lines.len(),
        forall|m: nat| #[trigger] line_code(lines[j as int], unit, m) is Err,
    ensures
        translate_from(lines, i, unit, n) is Err,
    decreases j - i,
{
    assert(line_code(lines[i as int], unit, n) is Err || i < j);
    if i < j {
        if let Ok((c, m)) = line_code(lines[i as int], unit, n) {
            lemma_failing_line(lines, i + 1, j, unit, m);
        }
    }
}

/// A unit that holds `pop constant n` is not translated, whatever else it
/// holds: the run fails and no code is kept.
pub proof fn lemma_pop_constant_fails(lines: Seq<Seq<char>>, j: nat, unit: Seq<char>, n: nat)
    requires
        j < lines.len(),
        word(lines[j as int], 0) == Some("pop"@),
        word(lines[j as int], 1) == Some("constant"@),
        word(lines[j as int], 2) matches Some(w) && index_value(w) is Some,
    ensures
        translate_from(lines, 0, unit, n) is Err,
{
    reveal_strlit("pop");
    reveal_strlit("push");
    reveal_strlit("add");
    reveal_strlit("sub");
    reveal_strlit("neg");
    reveal_strlit("eq");
    reveal_strlit("gt");
    reveal_strlit("lt");
    reveal_strlit("and");
    reveal_strlit("or");
    reveal_strlit("not");
    let p = "pop"@;
    assert(p[0] != "add"@[0] && p[0] != "sub"@[0] && p[0] != "neg"@[0]);
    assert(p[0] != "and"@[0] && p[0] != "not"@[0]);
    assert(p.len() != "eq"@.len() && p.len() != "gt"@.len() && p.len() != "lt"@.len());
    assert(p.len() != "or"@.len() && p.len() != "push"@.len());
    assert(command_kind("pop"@) == Some(CommandType::C_POP));
    let i = index_value(word(lines[j as int], 2)->Some_0)->Some_0;
    lemma_pop_constant_rejected(i as int, unit);
    assert forall|m: nat| #[trigger] line_code(lines[j as int], unit, m) is Err by {}
    lemma_failing_line(lines, 0, j, unit, n);
}

/// Comparisons with different numbers declare and target different labels.
pub proof fn lemma_comparison_labels_distinct(n1: nat, n2: nat)
    requires
        n1 != n2,
    ensures
        label_decl(n1) != label_decl(n2),
        label_ref(n1) != label_ref(n2),
{
    let p = "(comp_"@;
    let q = ")"@;
    let r = "@comp_"@;
    if label_decl(n1) == label_decl(n2) {
        assert((p + nat_text(n1) + q).len() == p.len() + nat_text(n1).len() + q.len());
        assert((p + nat_text(n2) + q).len() == p.len() + nat_text(n2).len() + q.len());
        assert(nat_text(n1).len() == nat_text(n2).len());
        assert((p + nat_text(n1) + q).subrange(p.len() as int, (p.len() + nat_text(n1).len()) as int)
            =~= nat_text(n1));
        assert((p + nat_text(n2) + q).subrange(p.len() as int, (p.len() + nat_text(n2).len()) as int)
            =~= nat_text(n2));
        lemma_nat_text_injective(n1, n2);
    }
    if label_ref(n1) == label_ref(n2) {
        assert((r + nat_text(n1)).skip(r.len() as int) =~= nat_text(n1));
        assert((r + nat_text(n2)).skip(r.len() as int) =~= nat_text(n2));
        lemma_nat_text_injective(n1, n2);
    }
}

/// Translating never takes back comparison numbers: the count after a unit
/// is at least the count before it, so later comparisons, in this unit or in
/// the next, get numbers not used before.
pub proof fn lemma_count_grows(lines: Seq<Seq<char>>, i: nat, unit: Seq<char>, n: nat)
    requires
        translate_from(lines, i, unit, n) is Ok,
    ensures
        translate_from(lines, i, unit, n)->Ok_0.1 >= n,
    decreases lines.len() - i,
{
    if i < lines.len() {
        if let Ok((c, m)) = line_code(lines[i as int], unit, n) {
            lemma_count_grows(lines, i + 1, unit, m);
        }
    }
}

/// Static slot `i` of two different units has two different symbols.
pub proof fn lemma_static_symbols_distinct(u1: Seq<char>, u2: Seq<char>, i: int)
    requires
        u1 != u2,
    ensures
        static_symbol(u1, i) != static_symbol(u2, i),
{
    let tail = seq!['.'] + int_text(i);
    if static_symbol(u1, i) == static_symbol(u2, i) {
        assert(static_symbol(u1, i) =~= u1 + tail);
        assert(static_symbol(u2, i) =~= u2 + tail);
        assert((u1 + tail).take(u1.len() as int) =~= u1);
        assert((u2 + tail).take(u2.len() as int) =~= u2);
    }
}

/// No predefined name holds a `.`.
proof fn lemma_predefined_no_dot(k: Seq<char>)
    requires
        predefined().contains_key(k),
    ensures
        forall|i: int| 0 <= i < k.len() ==> k[i] != '.',
{
    reveal_strlit("SP");
    reveal_strlit("LCL");
    reveal_strlit("ARG");
    reveal_strlit("THIS");
    reveal_strlit("THAT");
    reveal_strlit("R0");
    reveal_strlit("R1");
    reveal_strlit("R2");
    reveal_strlit("R3");
    reveal_strlit("R4");
    reveal_strlit("R5");
    reveal_strlit("R6");
    reveal_strlit("R7");
    reveal_strlit("R8");
    reveal_strlit("R9");
    reveal_strlit("R10");
    reveal_strlit("R11");
    reveal_strlit("R12");
    reveal_strlit("R13");
    reveal_strlit("R14");
    reveal_strlit("R15");
    reveal_strlit("SCREEN");
    reveal_strlit("KBD");
}

/// A name bound by the first pass is predefined or declared by a label line.
proof fn lemma_label_origin(lines: Seq<Seq<char>>, n: nat, s: Seq<char>)
    requires
        n <= lines.len(),
        labels(lines, n).contains_key(s),
    ensures
        predefined().contains_key(s) || exists|j: int|
            0 <= j < n && is_label_line(#[trigger] lines[j]) && symbol_of(lines[j]) == s,
    decreases n,
{
    if n > 0 && !(is_label_line(lines[n - 1]) && symbol_of(lines[n - 1]) == s) {
        lemma_label_origin(lines, (n - 1) as nat, s);
        if !predefined().contains_key(s) {
            let j = choose|j: int|
                0 <= j < n - 1 && is_label_line(#[trigger] lines[j]) && symbol_of(lines[j]) == s;
            assert(0 <= j < n);
        }
    }
}

/// The first pass does not bind a static symbol that no label declares.
proof fn lemma_static_unbound(lines: Seq<Seq<char>>, u: Seq<char>, x: int)
    requires
        forall|j: int|
            0 <= j < lines.len() && is_label_line(#[trigger] lines[j]) ==> symbol_of(lines[j])
                != static_symbol(u, x),
    ensures
        !labels(lines, lines.len()).contains_key(static_symbol(u, x)),
        !is_decimal(static_symbol(u, x)),
{
    let s = static_symbol(u, x);
    assert(s[u.len() as int] == '.');
    if labels(lines, lines.len()).contains_key(s) {
        lemma_label_origin(lines, lines.len(), s);
        if predefined().contains_key(s) {
            lemma_predefined_no_dot(s);
        }
    }
}

/// Static slot `x` of two different units lands at two different addresses:
/// in an assembled program, the instructions `@u1.x` and `@u2.x` load
/// different addresses, unless a label bears one of those names.
pub proof fn lemma_static_slots_apart(
    lines: Seq<Seq<char>>,
    u1: Seq<char>,
    u2: Seq<char>,
    x: int,
    i1: int,
    i2: int,
)
    requires
        assembled(lines) is Ok,
        u1 != u2,
        0 <= i1 < stripped(lines, lines.len()).len(),
        0 <= i2 < stripped(lines, lines.len()).len(),
        stripped(lines, lines.len())[i1] == seq!['@'] + static_symbol(u1, x),
        stripped(lines, lines.len())[i2] == seq!['@'] + static_symbol(u2, x),
        forall|j: int|
            0 <= j < lines.len() && is_label_line(#[trigger] lines[j]) ==> symbol_of(lines[j])
                != static_symbol(u1, x) && symbol_of(lines[j]) != static_symbol(u2, x),
    ensures
        assembled(lines)->Ok_0[i1] != assembled(lines)->Ok_0[i2],
{
    let instrs = stripped(lines, lines.len());
    lemma_static_symbols_distinct(u1, u2, x);
    lemma_static_unbound(lines, u1, x);
    lemma_static_unbound(lines, u2, x);
    assert(symbol_of(instrs[i1]) =~= static_symbol(u1, x));
    assert(symbol_of(instrs[i2]) =~= static_symbol(u2, x));
    lemma_distinct_variables(lines, i1, i2);
}

} // verus!
