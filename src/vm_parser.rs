//! Reading the stack language: commands and their arguments.
use vstd::prelude::*;
use crate::lines::{clean_lines, code_lines, split_at_newlines, split_lines, texts, token, token_of};
use crate::numbers::{decimal_value, is_decimal};
use crate::text::{chars_of, slice_chars, string_of};

verus! {

/// The kind of a stack-language command.
#[allow(non_camel_case_types)]
#[derive(Clone, Copy, Debug, PartialEq, Eq, Structural)]
pub enum CommandType {
    C_ARITHMETIC,
    C_PUSH,
    C_POP,
    C_LABEL,
    C_GOTO,
    C_IF,
    C_FUNCTION,
    C_RETURN,
    C_CALL,
}

/// Why a stack-language source cannot be translated.
#[derive(Clone, Copy, Debug, PartialEq, Eq, Structural)]
pub enum VmError {
    /// The first word of a line is no supported command.
    UnknownCommand,
    /// A push or pop lacks its segment or its index.
    MissingArgument,
    /// The index of a push or pop is not a 32-bit integer.
    BadIndex,
    /// A push or pop names no segment.
    UnknownSegment,
    /// `pop constant`: a constant is not storage.
    PopConstant,
    /// A push or pop was asked for with another kind of command.
    NotPushPop,
    /// The counter of comparison labels is at its end.
    LabelsExhausted,
}

/// The word number `n` of the line `l`, words being separated by white space.
pub open spec fn word(l: Seq<char>, n: nat) -> Option<Seq<char>> {
    token(l, n)
}

/// The first word of the line `l`, empty when the line has none.
pub open spec fn first_word(l: Seq<char>) -> Seq<char> {
    match word(l, 0) {
        Some(w) => w,
        None => Seq::empty(),
    }
}

/// Whether `w` names one of the nine arithmetic and logical operations.
pub open spec fn is_arithmetic(w: Seq<char>) -> bool {
    w == "add"@ || w == "sub"@ || w == "neg"@ || w == "eq"@ || w == "gt"@ || w == "lt"@ || w
        == "and"@ || w == "or"@ || w == "not"@
}

/// The kind of a command by its first word; `None` for an unsupported one.
pub open spec fn command_kind(w: Seq<char>) -> Option<CommandType> {
    if is_arithmetic(w) {
        Some(CommandType::C_ARITHMETIC)
    } else if w == "push"@ {
        Some(CommandType::C_PUSH)
    } else if w == "pop"@ {
        Some(CommandType::C_POP)
    } else {
        None
    }
}

/// The value of an index numeral: decimal digits, with an optional sign, that
/// fit in 32 bits.
pub open spec fn index_value(w: Seq<char>) -> Option<i32> {
    if w.len() > 0 && w[0] == '-' && is_decimal(w.skip(1)) && decimal_value(w.skip(1))
        <= 0x8000_0000 {
        Some((-decimal_value(w.skip(1))) as i32)
    } else if w.len() > 0 && w[0] == '+' && is_decimal(w.skip(1)) && decimal_value(w.skip(1))
        <= 0x7fff_ffff {
        Some(decimal_value(w.skip(1)) as i32)
    } else if is_decimal(w) && decimal_value(w) <= 0x7fff_ffff {
        Some(decimal_value(w) as i32)
    } else {
        None
    }
}

/// The value of the index numeral `w`.
pub fn parse_index(w: &Vec<char>) -> (r: Option<i32>)
    ensures
        r == index_value(w@),
{
    if w.len() > 0 && (w[0] == '-' || w[0] == '+') {
        let digits = slice_chars(w, 1, w.len());
        assert(digits@ =~= w@.skip(1));
        let limit: u64 = if w[0] == '-' {
            0x8000_0000
        } else {
            0x7fff_ffff
        };
        match crate::numbers::parse_decimal(&digits, limit) {
            Some(v) => {
                if w[0] == '-' {
                    Some((-(v as i64)) as i32)
                } else {
                    Some(v as i32)
                }
            },
            None => None,
        }
    } else {
        match crate::numbers::parse_decimal(w, 0x7fff_ffff) {
            Some(v) => Some(v as i32),
            None => None,
        }
    }
}

/// A cursor over the command lines of one source.
pub struct Parser {
    lines: Vec<String>,
    current_index: usize,
}

impl Parser {
    /// A cursor at the first command of `contents`.
    pub fn create(contents: String) -> (r: Parser)
        ensures
            r.lines_view() == clean_lines(split_lines(contents@)),
            r.index() == 0,
    {
        let lines = split_at_newlines(contents.as_str());
        Parser { lines: Self::get_codes_comment_removed(&lines), current_index: 0 }
    }

    /// The command lines, as texts.
    pub closed spec fn lines_view(&self) -> Seq<Seq<char>> {
        texts(self.lines@)
    }

    /// The position of the cursor.
    pub closed spec fn index(&self) -> nat {
        self.current_index as nat
    }

    /// The line under the cursor.
    pub open spec fn line(&self) -> Seq<char> {
        self.lines_view()[self.index() as int]
    }

    /// Whether the cursor stands on a line.
    pub open spec fn on_line(&self) -> bool {
        self.index() < self.lines_view().len()
    }

    /// Whether a command remains under the cursor.
    #[allow(non_snake_case)]
    pub fn hasMoreCommands(&self) -> (r: bool)
        ensures
            r == self.on_line(),
            self.lines_view().len() <= usize::MAX,
    {
        self.current_index < self.lines.len()
    }

    /// Moves the cursor to the next command.
    pub fn advance(&mut self)
        requires
            old(self).index() < usize::MAX,
        ensures
            final(self).lines_view() == old(self).lines_view(),
            final(self).index() == old(self).index() + 1,
    {
        self.current_index = self.current_index + 1;
    }

    fn current(&self) -> (r: Vec<char>)
        requires
            self.on_line(),
        ensures
            r@ == self.line(),
    {
        chars_of(self.lines[self.current_index].as_str())
    }

    /// The kind of the command under the cursor.
    #[allow(non_snake_case)]
    pub fn commandType(&self) -> (r: Result<CommandType, VmError>)
        requires
            self.on_line(),
        ensures
            match command_kind(first_word(self.line())) {
                Some(k) => r == Ok::<CommandType, VmError>(k),
                None => r == Err::<CommandType, VmError>(VmError::UnknownCommand),
            },
    {
        let w = self.arg0();
        let s = w.as_str();
        if crate::text::same_text(s, "add") || crate::text::same_text(s, "sub")
            || crate::text::same_text(s, "neg") || crate::text::same_text(s, "eq")
            || crate::text::same_text(s, "gt") || crate::text::same_text(s, "lt")
            || crate::text::same_text(s, "and") || crate::text::same_text(s, "or")
            || crate::text::same_text(s, "not") {
            Ok(CommandType::C_ARITHMETIC)
        } else if crate::text::same_text(s, "push") {
            Ok(CommandType::C_PUSH)
        } else if crate::text::same_text(s, "pop") {
            Ok(CommandType::C_POP)
        } else {
            Err(VmError::UnknownCommand)
        }
    }

    /// The first word of the command under the cursor.
    pub fn arg0(&self) -> (r: String)
        requires
            self.on_line(),
        ensures
            r@ == first_word(self.line()),
    {
        let v = self.current();
        match token_of(&v, 0) {
            Some(f) => string_of(&f),
            None => String::new(),
        }
    }

    /// The second word of the command under the cursor.
    pub fn arg1(&self) -> (r: Result<String, VmError>)
        requires
            self.on_line(),
        ensures
            match word(self.line(), 1) {
                Some(w) => r matches Ok(s) && s@ == w,
                None => r == Err::<String, VmError>(VmError::MissingArgument),
            },
    {
        let v = self.current();
        match token_of(&v, 1) {
            Some(f) => Ok(string_of(&f)),
            None => Err(VmError::MissingArgument),
        }
    }

    /// The third word of the command under the cursor, read as an index.
    pub fn arg2(&self) -> (r: Result<i32, VmError>)
        requires
            self.on_line(),
        ensures
            match word(self.line(), 2) {
                Some(w) => match index_value(w) {
                    Some(i) => r == Ok::<i32, VmError>(i),
                    None => r == Err::<i32, VmError>(VmError::BadIndex),
                },
                None => r == Err::<i32, VmError>(VmError::MissingArgument),
            },
    {
        let v = self.current();
        match token_of(&v, 2) {
            Some(f) => match parse_index(&f) {
                Some(i) => Ok(i),
                None => Err(VmError::BadIndex),
            },
            None => Err(VmError::MissingArgument),
        }
    }

    fn get_codes_comment_removed(lines: &Vec<String>) -> (r: Vec<String>)
        ensures
            texts(r@) == clean_lines(texts(lines@)),
    {
        code_lines(lines)
    }
}

} // verus!
