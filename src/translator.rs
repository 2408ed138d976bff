//! Translating whole units of the stack language.
use vstd::prelude::*;
use crate::code_writer::{
    arithmetic_code, is_comparison, label_step, push_pop_code, tail_after, tail_after_char,
    unit_name, CodeWriter,
};
use crate::lines::{clean_lines, split_lines, texts};
use crate::text::{chars_of, contains_char, has_char, same_text, string_of};
use crate::vm_parser::{command_kind, first_word, index_value, word, CommandType, Parser, VmError};

verus! {

/// The code of the command line `l` in `unit`, with the count of comparisons
/// after it; the next comparison is numbered `n`.
pub open spec fn line_code(l: Seq<char>, unit: Seq<char>, n: nat) -> Result<
    (Seq<Seq<char>>, nat),
    VmError,
> {
    let w = first_word(l);
    match command_kind(w) {
        None => Err(VmError::UnknownCommand),
        Some(CommandType::C_ARITHMETIC) => if is_comparison(w) && n == usize::MAX {
            Err(VmError::LabelsExhausted)
        } else {
            match arithmetic_code(w, n) {
                Ok(c) => Ok((c, n + label_step(w))),
                Err(e) => Err(e),
            }
        },
        Some(k) => match word(l, 1) {
            None => Err(VmError::MissingArgument),
            Some(seg) => match word(l, 2) {
                None => Err(VmError::MissingArgument),
                Some(iw) => match index_value(iw) {
                    None => Err(VmError::BadIndex),
                    Some(i) => match push_pop_code(k, seg, i as int, unit) {
                        Ok(c) => Ok((c, n)),
                        Err(e) => Err(e),
                    },
                },
            },
        },
    }
}

/// `acc` put in front of the code of `r`.
pub open spec fn prefixed(acc: Seq<Seq<char>>, r: Result<(Seq<Seq<char>>, nat), VmError>) -> Result<
    (Seq<Seq<char>>, nat),
    VmError,
> {
    match r {
        Ok((c, m)) => Ok((acc + c, m)),
        Err(e) => Err(e),
    }
}

/// The code of the command lines from position `i` on, with the count of
/// comparisons after them, or the first error.
pub open spec fn translate_from(lines: Seq<Seq<char>>, i: nat, unit: Seq<char>, n: nat) -> Result<
    (Seq<Seq<char>>, nat),
    VmError,
>
    decreases lines.len() - i,
{
    if i >= lines.len() {
        Ok((Seq::empty(), n))
    } else {
        match line_code(lines[i as int], unit, n) {
            Err(e) => Err(e),
            Ok((c, m)) => prefixed(c, translate_from(lines, i + 1, unit, m)),
        }
    }
}

/// The code of the source text `source` of the unit at `path`.
pub open spec fn translated(source: Seq<char>, path: Seq<char>, n: nat) -> Result<
    (Seq<Seq<char>>, nat),
    VmError,
> {
    translate_from(clean_lines(split_lines(source)), 0, unit_name(path), n)
}

proof fn lemma_prefixed_push(
    acc: Seq<Seq<char>>,
    c: Seq<Seq<char>>,
    r: Result<(Seq<Seq<char>>, nat), VmError>,
)
    ensures
        prefixed(acc, prefixed(c, r)) == prefixed(acc + c, r),
{
    if let Ok((rest, m)) = r {
        assert(acc + (c + rest) =~= acc + c + rest);
    }
}

/// Appends to `writer` the code of the unit at `path`, whose text is `source`.
pub fn translate_unit(writer: &mut CodeWriter, path: &String, source: String) -> (r: Result<
    (),
    VmError,
>)
    ensures
        match translated(source@, path@, old(writer).label_count()) {
            Ok((c, m)) => r is Ok && final(writer).code() == old(writer).code() + c
                && final(writer).label_count() == m,
            Err(e) => r == Err::<(), VmError>(e),
        },
        final(writer).unit() == unit_name(path@),
        final(writer).output_name() == old(writer).output_name(),
{
    writer.setFileName(path);
    let ghost unit = unit_name(path@);
    let ghost start = writer.code();
    let ghost all = translated(source@, path@, old(writer).label_count());
    let mut parser = Parser::create(source);
    let ghost lines = parser.lines_view();
    let ghost mut acc: Seq<Seq<char>> = Seq::empty();
    assert(start + acc =~= start);
    while parser.hasMoreCommands()
        invariant
            parser.lines_view() == lines,
            lines == clean_lines(split_lines(source@)),
            unit == unit_name(path@),
            start == old(writer).code(),
            all == translated(source@, path@, old(writer).label_count()),
            parser.index() <= lines.len(),
            writer.unit() == unit,
            writer.output_name() == old(writer).output_name(),
            writer.code() == start + acc,
            all == prefixed(acc, translate_from(lines, parser.index(), unit, writer.label_count())),
        decreases lines.len() - parser.index(),
    {
        let ghost l = parser.line();
        let ghost n = writer.label_count();
        let ghost before = writer.code();
        let ghost mut step: Seq<Seq<char>> = Seq::empty();
        let kind = parser.commandType();
        match kind {
            Ok(CommandType::C_ARITHMETIC) => {
                let op = parser.arg0();
                match writer.writeArithmetic(op.as_str()) {
                    Ok(()) => {
                        proof {
                            step = arithmetic_code(op@, n)->Ok_0;
                        }
                    },
                    Err(e) => return Err(e),
                }
            },
            Ok(k) => {
                let seg = match parser.arg1() {
                    Ok(s) => s,
                    Err(e) => return Err(e),
                };
                let index = match parser.arg2() {
                    Ok(i) => i,
                    Err(e) => return Err(e),
                };
                match writer.writePushPop(k, seg.as_str(), index) {
                    Ok(()) => {
                        proof {
                            step = push_pop_code(k, seg@, index as int, unit)->Ok_0;
                        }
                    },
                    Err(e) => return Err(e),
                }
            },
            Err(e) => return Err(e),
        }
        proof {
            let c = step;
            assert(writer.code() =~= before + c);
            assert(line_code(l, unit, n) == Ok::<(Seq<Seq<char>>, nat), VmError>((c, writer.label_count())));
            lemma_prefixed_push(acc, c, translate_from(lines, parser.index() + 1, unit, writer.label_count()));
            acc = acc + c;
            assert(writer.code() =~= start + acc);
        }
        parser.advance();
    }
    assert(acc + Seq::empty() =~= acc);
    Ok(())
}

/// Whether `filename` ends in the extension `vm`.
pub open spec fn has_vm_extension(filename: Seq<char>) -> bool {
    has_char(filename, '.') && tail_after(filename, '.') == "vm"@
}

/// Whether `filename` names a source of the stack language.
pub fn validate_file_extension(filename: &String) -> (r: bool)
    ensures
        r == has_vm_extension(filename@),
{
    let v = chars_of(filename.as_str());
    if !contains_char(&v, '.') {
        return false;
    }
    let ext = string_of(&tail_after_char(&v, '.'));
    same_text(ext.as_str(), "vm")
}

/// The paths among the first `n` that name sources, in order.
pub open spec fn sources(paths: Seq<Seq<char>>, n: nat) -> Seq<Seq<char>>
    decreases n,
{
    if n == 0 {
        Seq::empty()
    } else if has_vm_extension(paths[n - 1]) {
        sources(paths, (n - 1) as nat).push(paths[n - 1])
    } else {
        sources(paths, (n - 1) as nat)
    }
}

/// The paths that name sources of the stack language, in order.
pub fn select_sources(paths: &Vec<String>) -> (r: Vec<String>)
    ensures
        texts(r@) == sources(texts(paths@), paths@.len()),
{
    let mut r: Vec<String> = Vec::new();
    let mut i: usize = 0;
    while i < paths.len()
        invariant
            i <= paths@.len(),
            texts(r@) == sources(texts(paths@), i as nat),
        decreases paths.len() - i,
    {
        if validate_file_extension(&paths[i]) {
            let ghost before = texts(r@);
            r.push(paths[i].clone());
            assert(texts(r@) =~= before.push(paths@[i as int]@));
        }
        i += 1;
    }
    r
}

} // verus!
