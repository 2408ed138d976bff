//! Reading one assembly line: its kind and its fields.
use vstd::prelude::*;
use crate::lines::texts;
use crate::text::{chars_of, contains_char, field, field_of, has_char, slice_chars, string_of};

verus! {

/// The kind of an assembly line.
#[allow(non_camel_case_types)]
#[derive(Clone, Copy, Debug, PartialEq, Eq, Structural)]
pub enum CommandType {
    /// `@symbol`: loads an address.
    A_COMMAND,
    /// `dest=comp;jump`: a computation.
    C_COMMAND,
    /// `(symbol)`: declares a label.
    L_COMMAND,
}

/// The kind of the non-empty line `l`, told by its first character.
pub open spec fn kind_of(l: Seq<char>) -> CommandType {
    if l[0] == '@' {
        CommandType::A_COMMAND
    } else if l[0] == '(' {
        CommandType::L_COMMAND
    } else {
        CommandType::C_COMMAND
    }
}

/// The field, or an empty text when there is no such field.
pub open spec fn field_or_empty(s: Seq<char>, d1: char, d2: char, n: nat) -> Seq<char> {
    match field(s, d1, d2, n) {
        Some(f) => f,
        None => Seq::empty(),
    }
}

/// The symbol of an address or label line: what follows `@`, or what stands
/// between the parentheses.
pub open spec fn symbol_of(l: Seq<char>) -> Seq<char> {
    match kind_of(l) {
        CommandType::A_COMMAND => l.skip(1),
        CommandType::L_COMMAND => if l.len() >= 2 {
            l.subrange(1, l.len() - 1)
        } else {
            Seq::empty()
        },
        CommandType::C_COMMAND => Seq::empty(),
    }
}

/// The destination of a computation line: what precedes its `=`, if any.
pub open spec fn dest_of(l: Seq<char>) -> Seq<char> {
    if kind_of(l) == CommandType::C_COMMAND && has_char(l, '=') {
        field_or_empty(l, '=', '=', 0)
    } else {
        Seq::empty()
    }
}

/// The computation of a computation line: what follows `=` up to `;`, or what
/// precedes `;` when there is no `=`.
pub open spec fn comp_of(l: Seq<char>) -> Seq<char> {
    if kind_of(l) != CommandType::C_COMMAND {
        Seq::empty()
    } else if has_char(l, '=') && has_char(l, ';') {
        field_or_empty(l, '=', ';', 1)
    } else if has_char(l, '=') {
        field_or_empty(l, '=', '=', 1)
    } else if has_char(l, ';') {
        field_or_empty(l, ';', ';', 0)
    } else {
        Seq::empty()
    }
}

/// The jump of a computation line: what follows its `;`, if any.
pub open spec fn jump_of(l: Seq<char>) -> Seq<char> {
    if kind_of(l) == CommandType::C_COMMAND && has_char(l, ';') {
        field_or_empty(l, ';', ';', 1)
    } else {
        Seq::empty()
    }
}

/// A cursor over assembly lines.
pub struct Parser {
    lines: Vec<String>,
    current_index: usize,
}

/// A cursor at the first of `lines`.
#[allow(non_snake_case)]
pub fn Create(lines: Vec<String>) -> (r: Parser)
    ensures
        r.lines_view() == texts(lines@),
        r.index() == 0,
{
    Parser { lines, current_index: 0 }
}

fn field_text(v: &Vec<char>, d1: char, d2: char, n: usize) -> (r: String)
    ensures
        r@ == field_or_empty(v@, d1, d2, n as nat),
{
    match field_of(v, d1, d2, n) {
        Some(f) => string_of(&f),
        None => String::new(),
    }
}

impl Parser {
    /// The lines, as texts.
    pub closed spec fn lines_view(&self) -> Seq<Seq<char>> {
        texts(self.lines@)
    }

    /// The position of the cursor.
    pub closed spec fn index(&self) -> nat {
        self.current_index as nat
    }

    /// Whether the cursor stands on a non-empty line.
    pub open spec fn on_line(&self) -> bool {
        self.index() < self.lines_view().len() && self.line().len() > 0
    }

    /// The line under the cursor.
    pub open spec fn line(&self) -> Seq<char> {
        self.lines_view()[self.index() as int]
    }

    /// Whether a line remains under the cursor.
    #[allow(non_snake_case)]
    pub fn hasMoreCommands(&self) -> (r: bool)
        ensures
            r == (self.index() < self.lines_view().len()),
            self.lines_view().len() <= usize::MAX,
    {
        self.current_index < self.lines.len()
    }

    /// Moves the cursor to the next line.
    pub fn advance(&mut self)
        requires
            old(self).index() < usize::MAX,
        ensures
            final(self).lines_view() == old(self).lines_view(),
            final(self).index() == old(self).index() + 1,
    {
        self.current_index = self.current_index + 1;
    }

    /// The line under the cursor.
    pub fn line_text(&self) -> (r: String)
        requires
            self.index() < self.lines_view().len(),
        ensures
            r@ == self.line(),
    {
        self.lines[self.current_index].clone()
    }

    fn current(&self) -> (r: Vec<char>)
        requires
            self.index() < self.lines_view().len(),
        ensures
            r@ == self.line(),
    {
        chars_of(self.lines[self.current_index].as_str())
    }

    /// The kind of the line under the cursor.
    #[allow(non_snake_case)]
    pub fn commandType(&self) -> (r: CommandType)
        requires
            self.on_line(),
        ensures
            r == kind_of(self.line()),
    {
        let v = self.current();
        if v[0] == '@' {
            CommandType::A_COMMAND
        } else if v[0] == '(' {
            CommandType::L_COMMAND
        } else {
            CommandType::C_COMMAND
        }
    }

    /// The symbol of the address or label line under the cursor.
    pub fn symbol(&self) -> (r: String)
        requires
            self.on_line(),
        ensures
            r@ == symbol_of(self.line()),
    {
        let v = self.current();
        match self.commandType() {
            CommandType::A_COMMAND => string_of(&slice_chars(&v, 1, v.len())),
            CommandType::L_COMMAND => {
                if v.len() >= 2 {
                    string_of(&slice_chars(&v, 1, v.len() - 1))
                } else {
                    String::new()
                }
            },
            CommandType::C_COMMAND => String::new(),
        }
    }

    /// The destination of the computation line under the cursor.
    pub fn dest(&self) -> (r: String)
        requires
            self.on_line(),
        ensures
            r@ == dest_of(self.line()),
    {
        let v = self.current();
        if self.commandType() == CommandType::C_COMMAND && contains_char(&v, '=') {
            field_text(&v, '=', '=', 0)
        } else {
            String::new()
        }
    }

    /// The computation of the computation line under the cursor.
    pub fn comp(&self) -> (r: String)
        requires
            self.on_line(),
        ensures
            r@ == comp_of(self.line()),
    {
        let v = self.current();
        if self.commandType() != CommandType::C_COMMAND {
            return String::new();
        }
        let eq = contains_char(&v, '=');
        let semi = contains_char(&v, ';');
        if eq && semi {
            field_text(&v, '=', ';', 1)
        } else if eq {
            field_text(&v, '=', '=', 1)
        } else if semi {
            field_text(&v, ';', ';', 0)
        } else {
            String::new()
        }
    }

    /// The jump of the computation line under the cursor.
    pub fn jump(&self) -> (r: String)
        requires
            self.on_line(),
        ensures
            r@ == jump_of(self.line()),
    {
        let v = self.current();
        if self.commandType() == CommandType::C_COMMAND && contains_char(&v, ';') {
            field_text(&v, ';', ';', 1)
        } else {
            String::new()
        }
    }

    /// The position of the cursor.
    #[allow(non_snake_case)]
    pub fn getCurrentLineNumber(&self) -> (r: usize)
        ensures
            r == self.index(),
    {
        self.current_index
    }
}

} // verus!
