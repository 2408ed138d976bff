//! The fixed encoding tables of computation instructions.
use vstd::prelude::*;
use crate::numbers::{binary, push_binary};
use crate::text::same_text;

verus! {

/// The 3-bit code of a destination mnemonic; an unknown one stores nowhere.
pub open spec fn dest_code(m: Seq<char>) -> nat {
    if m == "M"@ {
        1
    } else if m == "D"@ {
        2
    } else if m == "MD"@ {
        3
    } else if m == "A"@ {
        4
    } else if m == "AM"@ {
        5
    } else if m == "AD"@ {
        6
    } else if m == "AMD"@ {
        7
    } else {
        0
    }
}

/// The 7-bit code of a computation mnemonic; `None` for an unknown one.
pub open spec fn comp_code(m: Seq<char>) -> Option<nat> {
    if m == "0"@ {
        Some(0b0101010)
    } else if m == "1"@ {
        Some(0b0111111)
    } else if m == "-1"@ {
        Some(0b0111010)
    } else if m == "D"@ {
        Some(0b0001100)
    } else if m == "A"@ {
        Some(0b0110000)
    } else if m == "!D"@ {
        Some(0b0001101)
    } else if m == "!A"@ {
        Some(0b0110001)
    } else if m == "-D"@ {
        Some(0b0001111)
    } else if m == "-A"@ {
        Some(0b0110011)
    } else if m == "D+1"@ {
        Some(0b0011111)
    } else if m == "A+1"@ {
        Some(0b0110111)
    } else if m == "D-1"@ {
        Some(0b0001110)
    } else if m == "A-1"@ {
        Some(0b0110010)
    } else if m == "D+A"@ {
        Some(0b0000010)
    } else if m == "D-A"@ {
        Some(0b0010011)
    } else if m == "A-D"@ {
        Some(0b0000111)
    } else if m == "D&A"@ {
        Some(0b0000000)
    } else if m == "D|A"@ {
        Some(0b0010101)
    } else if m == "M"@ {
        Some(0b1110000)
    } else if m == "!M"@ {
        Some(0b1110001)
    } else if m == "-M"@ {
        Some(0b1110011)
    } else if m == "M+1"@ {
        Some(0b1110111)
    } else if m == "M-1"@ {
        Some(0b1110010)
    } else if m == "D+M"@ {
        Some(0b1000010)
    } else if m == "D-M"@ {
        Some(0b1010011)
    } else if m == "M-D"@ {
        Some(0b1000111)
    } else if m == "D&M"@ {
        Some(0b1000000)
    } else if m == "D|M"@ {
        Some(0b1010101)
    } else {
        None
    }
}

/// The 3-bit code of a jump mnemonic; an unknown one never jumps.
pub open spec fn jump_code(m: Seq<char>) -> nat {
    if m == "JGT"@ {
        1
    } else if m == "JEQ"@ {
        2
    } else if m == "JGE"@ {
        3
    } else if m == "JLT"@ {
        4
    } else if m == "JNE"@ {
        5
    } else if m == "JLE"@ {
        6
    } else if m == "JMP"@ {
        7
    } else {
        0
    }
}

fn dest_value(m: &str) -> (r: u64)
    ensures
        r == dest_code(m@),
{
    if same_text(m, "M") {
        1
    } else if same_text(m, "D") {
        2
    } else if same_text(m, "MD") {
        3
    } else if same_text(m, "A") {
        4
    } else if same_text(m, "AM") {
        5
    } else if same_text(m, "AD") {
        6
    } else if same_text(m, "AMD") {
        7
    } else {
        0
    }
}

fn comp_value(m: &str) -> (r: Option<u64>)
    ensures
        r matches Some(c) ==> comp_code(m@) == Some(c as nat),
        r is None ==> comp_code(m@) is None,
{
    if same_text(m, "0") {
        Some(0b0101010)
    } else if same_text(m, "1") {
        Some(0b0111111)
    } else if same_text(m, "-1") {
        Some(0b0111010)
    } else if same_text(m, "D") {
        Some(0b0001100)
    } else if same_text(m, "A") {
        Some(0b0110000)
    } else if same_text(m, "!D") {
        Some(0b0001101)
    } else if same_text(m, "!A") {
        Some(0b0110001)
    } else if same_text(m, "-D") {
        Some(0b0001111)
    } else if same_text(m, "-A") {
        Some(0b0110011)
    } else if same_text(m, "D+1") {
        Some(0b0011111)
    } else if same_text(m, "A+1") {
        Some(0b0110111)
    } else if same_text(m, "D-1") {
        Some(0b0001110)
    } else if same_text(m, "A-1") {
        Some(0b0110010)
    } else if same_text(m, "D+A") {
        Some(0b0000010)
    } else if same_text(m, "D-A") {
        Some(0b0010011)
    } else if same_text(m, "A-D") {
        Some(0b0000111)
    } else if same_text(m, "D&A") {
        Some(0b0000000)
    } else if same_text(m, "D|A") {
        Some(0b0010101)
    } else if same_text(m, "M") {
        Some(0b1110000)
    } else if same_text(m, "!M") {
        Some(0b1110001)
    } else if same_text(m, "-M") {
        Some(0b1110011)
    } else if same_text(m, "M+1") {
        Some(0b1110111)
    } else if same_text(m, "M-1") {
        Some(0b1110010)
    } else if same_text(m, "D+M") {
        Some(0b1000010)
    } else if same_text(m, "D-M") {
        Some(0b1010011)
    } else if same_text(m, "M-D") {
        Some(0b1000111)
    } else if same_text(m, "D&M") {
        Some(0b1000000)
    } else if same_text(m, "D|M") {
        Some(0b1010101)
    } else {
        None
    }
}

fn jump_value(m: &str) -> (r: u64)
    ensures
        r == jump_code(m@),
{
    if same_text(m, "JGT") {
        1
    } else if same_text(m, "JEQ") {
        2
    } else if same_text(m, "JGE") {
        3
    } else if same_text(m, "JLT") {
        4
    } else if same_text(m, "JNE") {
        5
    } else if same_text(m, "JLE") {
        6
    } else if same_text(m, "JMP") {
        7
    } else {
        0
    }
}

/// The bits of a destination mnemonic.
pub fn dest(input: &String) -> (r: String)
    ensures
        r@ == binary(dest_code(input@), 3),
{
    let mut r = String::new();
    push_binary(&mut r, dest_value(input.as_str()), 3);
    r
}

/// The bits of a computation mnemonic; empty for an unknown one.
pub fn comp(input: &String) -> (r: String)
    ensures
        r@ == match comp_code(input@) {
            Some(c) => binary(c, 7),
            None => Seq::empty(),
        },
{
    let mut r = String::new();
    match comp_value(input.as_str()) {
        Some(c) => push_binary(&mut r, c, 7),
        None => {},
    }
    r
}

/// The bits of a jump mnemonic.
pub fn jump(input: &String) -> (r: String)
    ensures
        r@ == binary(jump_code(input@), 3),
{
    let mut r = String::new();
    push_binary(&mut r, jump_value(input.as_str()), 3);
    r
}

} // verus!
