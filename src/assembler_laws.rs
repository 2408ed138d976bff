//! What holds of every assembled program.
use vstd::prelude::*;
use crate::asm_parser::{kind_of, symbol_of, CommandType};
use crate::assembler::{
    address_of, address_word, allocates, assembled, emitted, encode_from, encode_line,
    is_label_line, labels, next_after, stripped, table_after, FIRST_VARIABLE,
};
use crate::numbers::{binary, is_decimal, lemma_binary_injective};
use crate::assembler::MAX_ADDRESS;
use vstd::arithmetic::power2::lemma2_to64;

verus! {

/// The table and the next variable address after the first `k` instructions.
pub open spec fn run_state(
    instrs: Seq<Seq<char>>,
    t: Map<Seq<char>, nat>,
    next: nat,
    k: nat,
) -> (Map<Seq<char>, nat>, nat)
    decreases k,
{
    if k == 0 {
        (t, next)
    } else {
        let s = run_state(instrs, t, next, (k - 1) as nat);
        let l = instrs[k - 1];
        (table_after(l, s.0, s.1), next_after(l, s.0, s.1))
    }
}

/// Whether instruction `k` is the first to name a variable: a symbol that is
/// neither a numeral nor in the table `t0`, and that no earlier instruction names.
pub open spec fn first_reference(instrs: Seq<Seq<char>>, t0: Map<Seq<char>, nat>, k: int) -> bool {
    let l = instrs[k];
    &&& kind_of(l) == CommandType::A_COMMAND
    &&& !is_decimal(symbol_of(l))
    &&& !t0.contains_key(symbol_of(l))
    &&& forall|j: int|
        0 <= j < k ==> !(kind_of(#[trigger] instrs[j]) == CommandType::A_COMMAND && symbol_of(
            instrs[j],
        ) == symbol_of(l))
}

/// How many of the first `k` instructions are first references to variables.
pub open spec fn new_before(instrs: Seq<Seq<char>>, t0: Map<Seq<char>, nat>, k: nat) -> nat
    decreases k,
{
    if k == 0 {
        0
    } else if first_reference(instrs, t0, k - 1) {
        new_before(instrs, t0, (k - 1) as nat) + 1
    } else {
        new_before(instrs, t0, (k - 1) as nat)
    }
}

/// An assembled suffix has one word per instruction.
proof fn lemma_encode_len(
    instrs: Seq<Seq<char>>,
    i: nat,
    t: Map<Seq<char>, nat>,
    next: nat,
    ws: Seq<Seq<char>>,
)
    requires
        i <= instrs.len(),
        encode_from(instrs, i, t, next) == Ok::<Seq<Seq<char>>, crate::assembler::AsmError>(ws),
    ensures
        ws.len() == instrs.len() - i,
    decreases instrs.len() - i,
{
    if i < instrs.len() {
        let l = instrs[i as int];
        let rest = encode_from(instrs, i + 1, table_after(l, t, next), next_after(l, t, next));
        if let Ok(r) = rest {
            lemma_encode_len(instrs, i + 1, table_after(l, t, next), next_after(l, t, next), r);
        }
    }
}

/// After `k` instructions the rest of the program assembles to the rest of the words.
proof fn lemma_encode_suffix(
    instrs: Seq<Seq<char>>,
    t: Map<Seq<char>, nat>,
    next: nat,
    ws: Seq<Seq<char>>,
    k: nat,
)
    requires
        encode_from(instrs, 0, t, next) == Ok::<Seq<Seq<char>>, crate::assembler::AsmError>(ws),
        k <= instrs.len(),
    ensures
        encode_from(instrs, k, run_state(instrs, t, next, k).0, run_state(instrs, t, next, k).1)
            == Ok::<Seq<Seq<char>>, crate::assembler::AsmError>(ws.skip(k as int)),
    decreases k,
{
    lemma_encode_len(instrs, 0, t, next, ws);
    if k > 0 {
        lemma_encode_suffix(instrs, t, next, ws, (k - 1) as nat);
        let s = run_state(instrs, t, next, (k - 1) as nat);
        let l = instrs[k - 1];
        let w = encode_line(l, s.0, s.1, (k - 1) as nat)->Ok_0;
        let rest = encode_from(instrs, k, table_after(l, s.0, s.1), next_after(l, s.0, s.1));
        if let Ok(r) = rest {
            assert(seq![w] + r == ws.skip(k - 1));
            assert(r =~= (seq![w] + r).skip(1));
            assert(ws.skip(k - 1).skip(1) =~= ws.skip(k as int));
        }
    } else {
        assert(ws.skip(0) =~= ws);
    }
}

/// Word `k` is what instruction `k` encodes to in the state that precedes it.
proof fn lemma_word_at(
    instrs: Seq<Seq<char>>,
    t: Map<Seq<char>, nat>,
    next: nat,
    ws: Seq<Seq<char>>,
    k: nat,
)
    requires
        encode_from(instrs, 0, t, next) == Ok::<Seq<Seq<char>>, crate::assembler::AsmError>(ws),
        k < instrs.len(),
    ensures
        encode_line(
            instrs[k as int],
            run_state(instrs, t, next, k).0,
            run_state(instrs, t, next, k).1,
            k,
        ) == Ok::<Seq<char>, crate::assembler::AsmError>(ws[k as int]),
{
    lemma_encode_len(instrs, 0, t, next, ws);
    lemma_encode_suffix(instrs, t, next, ws, k);
    let s = run_state(instrs, t, next, k);
    let l = instrs[k as int];
    let rest = encode_from(instrs, k + 1, table_after(l, s.0, s.1), next_after(l, s.0, s.1));
    assert(ws.skip(k as int)[0] == ws[k as int]);
}

/// Entries of the table are never changed by the instructions.
proof fn lemma_table_keeps(instrs: Seq<Seq<char>>, t: Map<Seq<char>, nat>, next: nat, k: nat, x: Seq<char>)
    requires
        t.contains_key(x),
    ensures
        run_state(instrs, t, next, k).0.contains_key(x),
        run_state(instrs, t, next, k).0[x] == t[x],
    decreases k,
{
    if k > 0 {
        lemma_table_keeps(instrs, t, next, (k - 1) as nat, x);
    }
}

/// The instructions are the lines that are not labels.
proof fn lemma_stripped_len(lines: Seq<Seq<char>>, n: nat)
    requires
        n <= lines.len(),
    ensures
        stripped(lines, n).len() == emitted(lines, n),
    decreases n,
{
    if n > 0 {
        lemma_stripped_len(lines, (n - 1) as nat);
    }
}

/// A program assembles to one word per address or computation instruction:
/// labels give none.
pub proof fn lemma_one_word_per_instruction(lines: Seq<Seq<char>>)
    requires
        assembled(lines) is Ok,
    ensures
        assembled(lines)->Ok_0.len() == emitted(lines, lines.len()),
{
    lemma_stripped_len(lines, lines.len());
    lemma_encode_len(
        stripped(lines, lines.len()),
        0,
        labels(lines, lines.len()),
        FIRST_VARIABLE as nat,
        assembled(lines)->Ok_0,
    );
}

/// After the last declaration of a label, the table binds it to the number of
/// instructions before that declaration.
proof fn lemma_label_bound(lines: Seq<Seq<char>>, j: int, n: nat)
    requires
        0 <= j < n <= lines.len(),
        is_label_line(lines[j]),
        forall|k: int|
            j < k < lines.len() && is_label_line(#[trigger] lines[k]) ==> symbol_of(lines[k])
                != symbol_of(lines[j]),
    ensures
        labels(lines, n).contains_key(symbol_of(lines[j])),
        labels(lines, n)[symbol_of(lines[j])] == emitted(lines, j as nat),
    decreases n,
{
    if n > j + 1 {
        lemma_label_bound(lines, j, (n - 1) as nat);
    }
}

/// A label resolves, wherever it is referenced, before or after its
/// declaration, to the address of the first instruction that follows its last
/// declaration.
pub proof fn lemma_label_resolution(lines: Seq<Seq<char>>, j: int, i: int)
    requires
        assembled(lines) is Ok,
        0 <= j < lines.len(),
        is_label_line(lines[j]),
        !is_decimal(symbol_of(lines[j])),
        forall|k: int|
            j < k < lines.len() && is_label_line(#[trigger] lines[k]) ==> symbol_of(lines[k])
                != symbol_of(lines[j]),
        0 <= i < stripped(lines, lines.len()).len(),
        kind_of(stripped(lines, lines.len())[i]) == CommandType::A_COMMAND,
        symbol_of(stripped(lines, lines.len())[i]) == symbol_of(lines[j]),
    ensures
        assembled(lines)->Ok_0[i] == address_word(emitted(lines, j as nat)),
{
    let instrs = stripped(lines, lines.len());
    let t0 = labels(lines, lines.len());
    let x = symbol_of(lines[j]);
    let ws = assembled(lines)->Ok_0;
    lemma_label_bound(lines, j, lines.len());
    lemma_word_at(instrs, t0, FIRST_VARIABLE as nat, ws, i as nat);
    lemma_table_keeps(instrs, t0, FIRST_VARIABLE as nat, i as nat, x);
}

/// What the table holds after `k` instructions, and where the next variable goes.
proof fn lemma_run_state(instrs: Seq<Seq<char>>, t0: Map<Seq<char>, nat>, k: nat)
    requires
        k <= instrs.len(),
    ensures
        run_state(instrs, t0, FIRST_VARIABLE as nat, k).1 == FIRST_VARIABLE + new_before(
            instrs,
            t0,
            k,
        ),
        forall|s: Seq<char>|
            #[trigger] run_state(instrs, t0, FIRST_VARIABLE as nat, k).0.contains_key(s) <==> (
            t0.contains_key(s) || (!is_decimal(s) && exists|j: int|
                0 <= j < k && kind_of(#[trigger] instrs[j]) == CommandType::A_COMMAND && symbol_of(
                    instrs[j],
                ) == s)),
    decreases k,
{
    if k > 0 {
        let km = (k - 1) as nat;
        lemma_run_state(instrs, t0, km);
        let s = run_state(instrs, t0, FIRST_VARIABLE as nat, km);
        let l = instrs[km as int];
        let t1 = run_state(instrs, t0, FIRST_VARIABLE as nat, k).0;
        assert(allocates(l, s.0) == first_reference(instrs, t0, km as int)) by {
            if kind_of(l) == CommandType::A_COMMAND && !is_decimal(symbol_of(l)) && !t0.contains_key(
                symbol_of(l),
            ) {
                if s.0.contains_key(symbol_of(l)) {
                    let j = choose|j: int|
                        0 <= j < km && kind_of(#[trigger] instrs[j]) == CommandType::A_COMMAND
                            && symbol_of(instrs[j]) == symbol_of(l);
                    assert(!first_reference(instrs, t0, km as int));
                } else {
                    assert forall|j: int| 0 <= j < km implies !(kind_of(#[trigger] instrs[j])
                        == CommandType::A_COMMAND && symbol_of(instrs[j]) == symbol_of(l)) by {
                        if kind_of(instrs[j]) == CommandType::A_COMMAND && symbol_of(instrs[j])
                            == symbol_of(l) {
                            assert(s.0.contains_key(symbol_of(l)));
                        }
                    }
                }
            }
        }
        assert forall|x: Seq<char>| #[trigger] t1.contains_key(x) <==> (t0.contains_key(x) || (
        !is_decimal(x) && exists|j: int|
            0 <= j < k && kind_of(#[trigger] instrs[j]) == CommandType::A_COMMAND && symbol_of(
                instrs[j],
            ) == x)) by {
            if !is_decimal(x) && (exists|j: int|
                0 <= j < k && kind_of(#[trigger] instrs[j]) == CommandType::A_COMMAND && symbol_of(
                    instrs[j],
                ) == x) {
                let j = choose|j: int|
                    0 <= j < k && kind_of(#[trigger] instrs[j]) == CommandType::A_COMMAND
                        && symbol_of(instrs[j]) == x;
                if j < km {
                    assert(s.0.contains_key(x));
                } else {
                    assert(j == km);
                }
            }
            if s.0.contains_key(x) && !t0.contains_key(x) {
                let j = choose|j: int|
                    0 <= j < km && kind_of(#[trigger] instrs[j]) == CommandType::A_COMMAND
                        && symbol_of(instrs[j]) == x;
                assert(0 <= j < k);
            }
        }
    }
}

/// Variables are placed from address 16 on, in the order of their first
/// reference: the first reference to a new variable loads 16 plus the number
/// of variables that were referenced before it.
pub proof fn lemma_variable_allocation(lines: Seq<Seq<char>>, k: int)
    requires
        assembled(lines) is Ok,
        0 <= k < stripped(lines, lines.len()).len(),
        first_reference(stripped(lines, lines.len()), labels(lines, lines.len()), k),
    ensures
        assembled(lines)->Ok_0[k] == address_word(
            (FIRST_VARIABLE + new_before(stripped(lines, lines.len()), labels(lines, lines.len()), k as nat)) as nat,
        ),
        FIRST_VARIABLE + new_before(stripped(lines, lines.len()), labels(lines, lines.len()), k as nat)
            <= MAX_ADDRESS,
{
    let instrs = stripped(lines, lines.len());
    let t0 = labels(lines, lines.len());
    let ws = assembled(lines)->Ok_0;
    lemma_word_at(instrs, t0, FIRST_VARIABLE as nat, ws, k as nat);
    lemma_run_state(instrs, t0, k as nat);
    let l = instrs[k];
    let s = run_state(instrs, t0, FIRST_VARIABLE as nat, k as nat);
    if s.0.contains_key(symbol_of(l)) {
        let j = choose|j: int|
            0 <= j < k && kind_of(#[trigger] instrs[j]) == CommandType::A_COMMAND && symbol_of(
                instrs[j],
            ) == symbol_of(l);
        assert(false);
    }
    assert(address_of(l, s.0, s.1) == s.1);
}

/// A later first reference comes after more variables than an earlier one, so
/// two variables never share an address.
pub proof fn lemma_variables_distinct(instrs: Seq<Seq<char>>, t0: Map<Seq<char>, nat>, k1: nat, k2: nat)
    requires
        k1 < k2 <= instrs.len(),
        first_reference(instrs, t0, k1 as int),
    ensures
        new_before(instrs, t0, k1) < new_before(instrs, t0, k2),
    decreases k2,
{
    if k2 > k1 + 1 {
        lemma_variables_distinct(instrs, t0, k1, (k2 - 1) as nat);
    }
}

/// Two address instructions that name the same symbol load the same address.
pub proof fn lemma_same_symbol_same_word(lines: Seq<Seq<char>>, i1: int, i2: int)
    requires
        assembled(lines) is Ok,
        0 <= i1 < i2 < stripped(lines, lines.len()).len(),
        kind_of(stripped(lines, lines.len())[i1]) == CommandType::A_COMMAND,
        kind_of(stripped(lines, lines.len())[i2]) == CommandType::A_COMMAND,
        symbol_of(stripped(lines, lines.len())[i1]) == symbol_of(stripped(lines, lines.len())[i2]),
    ensures
        assembled(lines)->Ok_0[i1] == assembled(lines)->Ok_0[i2],
{
    let instrs = stripped(lines, lines.len());
    let t0 = labels(lines, lines.len());
    let ws = assembled(lines)->Ok_0;
    let x = symbol_of(instrs[i1]);
    lemma_word_at(instrs, t0, FIRST_VARIABLE as nat, ws, i1 as nat);
    lemma_word_at(instrs, t0, FIRST_VARIABLE as nat, ws, i2 as nat);
    if !is_decimal(x) {
        let s1 = run_state(instrs, t0, FIRST_VARIABLE as nat, i1 as nat);
        let s2 = run_state(instrs, t0, FIRST_VARIABLE as nat, (i1 + 1) as nat);
        assert(s2.0.contains_key(x));
        assert(address_of(instrs[i1], s1.0, s1.1) == s2.0[x]);
        lemma_table_keeps_from(instrs, t0, (i1 + 1) as nat, i2 as nat, x);
    }
}

/// Entries present after `k1` instructions are unchanged after `k2`.
proof fn lemma_table_keeps_from(instrs: Seq<Seq<char>>, t0: Map<Seq<char>, nat>, k1: nat, k2: nat, x: Seq<char>)
    requires
        k1 <= k2,
        run_state(instrs, t0, FIRST_VARIABLE as nat, k1).0.contains_key(x),
    ensures
        run_state(instrs, t0, FIRST_VARIABLE as nat, k2).0.contains_key(x),
        run_state(instrs, t0, FIRST_VARIABLE as nat, k2).0[x] == run_state(
            instrs,
            t0,
            FIRST_VARIABLE as nat,
            k1,
        ).0[x],
    decreases k2,
{
    if k2 > k1 {
        lemma_table_keeps_from(instrs, t0, k1, (k2 - 1) as nat, x);
    }
}

/// Different addresses in range have different address words.
pub proof fn lemma_address_word_injective(a: nat, b: nat)
    requires
        a <= MAX_ADDRESS,
        b <= MAX_ADDRESS,
        a != b,
    ensures
        address_word(a) != address_word(b),
{
    lemma2_to64();
    if address_word(a) == address_word(b) {
        assert(address_word(a).skip(1) =~= binary(a, 15));
        assert(address_word(b).skip(1) =~= binary(b, 15));
        lemma_binary_injective(a, b, 15);
    }
}

/// The first instruction that names the variable named by instruction `k`.
proof fn lemma_first_reference_exists(instrs: Seq<Seq<char>>, t0: Map<Seq<char>, nat>, k: int) -> (f: int)
    requires
        0 <= k < instrs.len(),
        kind_of(instrs[k]) == CommandType::A_COMMAND,
        !is_decimal(symbol_of(instrs[k])),
        !t0.contains_key(symbol_of(instrs[k])),
    ensures
        0 <= f <= k,
        first_reference(instrs, t0, f),
        symbol_of(instrs[f]) == symbol_of(instrs[k]),
    decreases k,
{
    if exists|j: int|
        0 <= j < k && kind_of(#[trigger] instrs[j]) == CommandType::A_COMMAND && symbol_of(instrs[j])
            == symbol_of(instrs[k]) {
        let j = choose|j: int|
            0 <= j < k && kind_of(#[trigger] instrs[j]) == CommandType::A_COMMAND && symbol_of(
                instrs[j],
            ) == symbol_of(instrs[k]);
        lemma_first_reference_exists(instrs, t0, j)
    } else {
        k
    }
}

/// Two address instructions that name two different variables (symbols that
/// are no numerals and that the first pass does not bind) load different
/// addresses.
pub proof fn lemma_distinct_variables(lines: Seq<Seq<char>>, i1: int, i2: int)
    requires
        assembled(lines) is Ok,
        0 <= i1 < stripped(lines, lines.len()).len(),
        0 <= i2 < stripped(lines, lines.len()).len(),
        kind_of(stripped(lines, lines.len())[i1]) == CommandType::A_COMMAND,
        kind_of(stripped(lines, lines.len())[i2]) == CommandType::A_COMMAND,
        symbol_of(stripped(lines, lines.len())[i1]) != symbol_of(stripped(lines, lines.len())[i2]),
        !is_decimal(symbol_of(stripped(lines, lines.len())[i1])),
        !is_decimal(symbol_of(stripped(lines, lines.len())[i2])),
        !labels(lines, lines.len()).contains_key(symbol_of(stripped(lines, lines.len())[i1])),
        !labels(lines, lines.len()).contains_key(symbol_of(stripped(lines, lines.len())[i2])),
    ensures
        assembled(lines)->Ok_0[i1] != assembled(lines)->Ok_0[i2],
{
    let instrs = stripped(lines, lines.len());
    let t0 = labels(lines, lines.len());
    let ws = assembled(lines)->Ok_0;
    let f1 = lemma_first_reference_exists(instrs, t0, i1);
    let f2 = lemma_first_reference_exists(instrs, t0, i2);
    lemma_variable_allocation(lines, f1);
    lemma_variable_allocation(lines, f2);
    if f1 < i1 {
        lemma_same_symbol_same_word(lines, f1, i1);
    }
    if f2 < i2 {
        lemma_same_symbol_same_word(lines, f2, i2);
    }
    assert(f1 != f2);
    if f1 < f2 {
        lemma_variables_distinct(instrs, t0, f1 as nat, f2 as nat);
    } else {
        lemma_variables_distinct(instrs, t0, f2 as nat, f1 as nat);
    }
    lemma_address_word_injective(
        (FIRST_VARIABLE + new_before(instrs, t0, f1 as nat)) as nat,
        (FIRST_VARIABLE + new_before(instrs, t0, f2 as nat)) as nat,
    );
}

} // verus!
