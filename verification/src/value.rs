//! The tagged values that flow through a pipeline, and their type descriptors.

use vstd::prelude::*;
use crate::errors::{error_view, CrushError, CrushResult, ErrorKind, ErrorView};
use crate::glob::Glob;
use crate::number::{integer_text, integer_to_string, lemma_integer_round_trip, parse_integer, parse_integer_spec};
use crate::text::{char_at, chars_of, text_eq};

verus! {

/// The descriptor of a value's type.
#[derive(Debug, PartialEq, Eq)]
pub enum ValueType {
    Empty,
    Text,
    Integer,
    Bool,
    Char,
    Binary,
    Glob,
    File,
    Duration,
    /// A list whose cells all have the given type.
    List(Box<ValueType>),
    BinaryReader,
    Command,
    Stream,
    /// Accepts a value of every type.
    Any,
}

/// An open source of text lines, as the host read them: each line ends with
/// its newline, but for a last line that the source left unterminated.
#[derive(Debug, PartialEq, Eq)]
pub struct BinaryReader {
    pub lines: Vec<String>,
    pub next: usize,
}

/// The mathematical content of a `BinaryReader`.
pub struct ReaderView {
    pub lines: Seq<Seq<char>>,
    pub next: nat,
}

/// The views of a sequence of strings, in order.
pub open spec fn texts_of(lines: Seq<String>) -> Seq<Seq<char>> {
    Seq::new(lines.len(), |i: int| lines[i]@)
}

impl View for BinaryReader {
    type V = ReaderView;

    open spec fn view(&self) -> ReaderView {
        ReaderView { lines: texts_of(self.lines@), next: self.next as nat }
    }
}

impl ReaderView {
    /// The line that the next read returns; the empty text once the source is
    /// exhausted.
    pub open spec fn current(self) -> Seq<char> {
        if self.next < self.lines.len() {
            self.lines[self.next as int]
        } else {
            Seq::<char>::empty()
        }
    }

    /// The reader after one read.
    pub open spec fn advanced(self) -> ReaderView {
        if self.next < self.lines.len() {
            ReaderView { lines: self.lines, next: self.next + 1 }
        } else {
            self
        }
    }
}

impl BinaryReader {
    /// A reader that will yield `lines`, first to last.
    pub fn new(lines: Vec<String>) -> (r: BinaryReader)
        ensures
            r@ == (ReaderView { lines: texts_of(lines@), next: 0 }),
    {
        BinaryReader { lines, next: 0 }
    }

    /// The line that the next read will return, without consuming it.
    pub fn peek_line(&self) -> (line: &str)
        ensures
            line@ == self@.current(),
    {
        if self.next < self.lines.len() {
            self.lines[self.next].as_str()
        } else {
            proof {
                reveal_strlit("");
            }
            ""
        }
    }

    /// Moves past the current line.
    pub fn advance(&mut self)
        ensures
            final(self)@ == old(self)@.advanced(),
    {
        if self.next < self.lines.len() {
            self.next = self.next + 1;
        }
    }
}

/// A runtime value.
#[derive(Debug, PartialEq, Eq)]
pub enum Value {
    Empty,
    Text(String),
    Integer(i128),
    Bool(bool),
    Char(char),
    Binary(Vec<u8>),
    Glob(Glob),
    File(String),
    /// A span of time, in seconds.
    Duration(i64),
    /// The type of the cells, and the cells.
    List(ValueType, Vec<Value>),
    BinaryReader(BinaryReader),
    /// A command, by its position in the registry.
    Command(usize),
    /// A stream of rows, by its position in the pipeline.
    Stream(usize),
}

/// The mathematical content of a `Value`.
pub enum ValueView {
    Empty,
    Text(Seq<char>),
    Integer(i128),
    Bool(bool),
    Char(char),
    Binary(Seq<u8>),
    Glob(Seq<char>),
    File(Seq<char>),
    Duration(i64),
    List(ValueType, Seq<ValueView>),
    BinaryReader(ReaderView),
    Command(usize),
    Stream(usize),
}

impl View for Value {
    type V = ValueView;

    open spec fn view(&self) -> ValueView
        decreases self,
    {
        match self {
            Value::Empty => ValueView::Empty,
            Value::Text(s) => ValueView::Text(s@),
            Value::Integer(i) => ValueView::Integer(*i),
            Value::Bool(b) => ValueView::Bool(*b),
            Value::Char(c) => ValueView::Char(*c),
            Value::Binary(b) => ValueView::Binary(b@),
            Value::Glob(g) => ValueView::Glob(g@),
            Value::File(p) => ValueView::File(p@),
            Value::Duration(d) => ValueView::Duration(*d),
            Value::List(t, cells) => ValueView::List(
                *t,
                Seq::new(
                    cells@.len(),
                    |i: int|
                        if 0 <= i < cells@.len() {
                            cells@[i]@
                        } else {
                            ValueView::Empty
                        },
                ),
            ),
            Value::BinaryReader(r) => ValueView::BinaryReader(r@),
            Value::Command(c) => ValueView::Command(*c),
            Value::Stream(s) => ValueView::Stream(*s),
        }
    }
}

/// The views of a sequence of values, in order.
pub open spec fn values_of(cells: Seq<Value>) -> Seq<ValueView> {
    Seq::new(cells.len(), |i: int| cells[i]@)
}

impl ValueView {
    /// The type of this value.
    pub open spec fn value_type(self) -> ValueType {
        match self {
            ValueView::Empty => ValueType::Empty,
            ValueView::Text(_) => ValueType::Text,
            ValueView::Integer(_) => ValueType::Integer,
            ValueView::Bool(_) => ValueType::Bool,
            ValueView::Char(_) => ValueType::Char,
            ValueView::Binary(_) => ValueType::Binary,
            ValueView::Glob(_) => ValueType::Glob,
            ValueView::File(_) => ValueType::File,
            ValueView::Duration(_) => ValueType::Duration,
            ValueView::List(t, _) => ValueType::List(Box::new(t)),
            ValueView::BinaryReader(_) => ValueType::BinaryReader,
            ValueView::Command(_) => ValueType::Command,
            ValueView::Stream(_) => ValueType::Stream,
        }
    }

    /// The display form of this value: the text itself for the kinds that can
    /// be read back from text, the bracketed type name for the others.
    pub open spec fn display(self) -> Seq<char> {
        match self {
            ValueView::Empty => Seq::<char>::empty(),
            ValueView::Text(s) => s,
            ValueView::Integer(i) => integer_text(i as int),
            ValueView::Bool(b) => if b {
                "true"@
            } else {
                "false"@
            },
            ValueView::Char(c) => seq![c],
            ValueView::Binary(_) => "<binary>"@,
            ValueView::Glob(p) => p,
            ValueView::File(p) => p,
            ValueView::Duration(d) => integer_text(d as int),
            ValueView::List(_, _) => "<list>"@,
            ValueView::BinaryReader(_) => "<binary_reader>"@,
            ValueView::Command(_) => "<command>"@,
            ValueView::Stream(_) => "<stream>"@,
        }
    }
}

/// The name of a type, as written in a column description.
pub open spec fn name_of_type(t: ValueType) -> Seq<char> {
    match t {
        ValueType::Empty => "empty"@,
        ValueType::Text => "string"@,
        ValueType::Integer => "integer"@,
        ValueType::Bool => "bool"@,
        ValueType::Char => "char"@,
        ValueType::Binary => "binary"@,
        ValueType::Glob => "glob"@,
        ValueType::File => "file"@,
        ValueType::Duration => "duration"@,
        ValueType::List(_) => "list"@,
        ValueType::BinaryReader => "binary_reader"@,
        ValueType::Command => "command"@,
        ValueType::Stream => "stream"@,
        ValueType::Any => "any"@,
    }
}

/// The type that `name` names. A list has a parameter and so no name of its own.
pub open spec fn type_named(name: Seq<char>) -> Option<ValueType> {
    if name == "empty"@ {
        Some(ValueType::Empty)
    } else if name == "string"@ {
        Some(ValueType::Text)
    } else if name == "integer"@ {
        Some(ValueType::Integer)
    } else if name == "bool"@ {
        Some(ValueType::Bool)
    } else if name == "char"@ {
        Some(ValueType::Char)
    } else if name == "binary"@ {
        Some(ValueType::Binary)
    } else if name == "glob"@ {
        Some(ValueType::Glob)
    } else if name == "file"@ {
        Some(ValueType::File)
    } else if name == "duration"@ {
        Some(ValueType::Duration)
    } else if name == "binary_reader"@ {
        Some(ValueType::BinaryReader)
    } else if name == "command"@ {
        Some(ValueType::Command)
    } else if name == "stream"@ {
        Some(ValueType::Stream)
    } else if name == "any"@ {
        Some(ValueType::Any)
    } else {
        None
    }
}

/// The error for a type name that names no type.
pub open spec fn unknown_type(name: Seq<char>) -> ErrorView {
    error_view(ErrorKind::Type, "Unknown type "@ + name)
}

/// The error for text that is no value of type `t`.
pub open spec fn parse_error(t: ValueType, text: Seq<char>) -> ErrorView {
    error_view(ErrorKind::Parse, "Invalid "@ + name_of_type(t) + ": "@ + text)
}

/// Whether values of type `t` can be read from text.
pub open spec fn parses_text(t: ValueType) -> bool {
    t == ValueType::Text || t == ValueType::Integer || t == ValueType::Bool || t
        == ValueType::Char || t == ValueType::Glob || t == ValueType::File
}

/// The value of type `t` that `text` denotes, or the error that says why it
/// denotes none.
pub open spec fn parse_spec(t: ValueType, text: Seq<char>) -> Result<ValueView, ErrorView> {
    match t {
        ValueType::Text => Ok(ValueView::Text(text)),
        ValueType::Integer => match parse_integer_spec(text) {
            Some(v) => Ok(ValueView::Integer(v as i128)),
            None => Err(parse_error(t, text)),
        },
        ValueType::Bool => if text == "true"@ {
            Ok(ValueView::Bool(true))
        } else if text == "false"@ {
            Ok(ValueView::Bool(false))
        } else {
            Err(parse_error(t, text))
        },
        ValueType::Char => if text.len() == 1 {
            Ok(ValueView::Char(text[0]))
        } else {
            Err(parse_error(t, text))
        },
        ValueType::Glob => Ok(ValueView::Glob(text)),
        ValueType::File => Ok(ValueView::File(text)),
        _ => Err(parse_error(t, text)),
    }
}

/// Whether a value of type `actual` may stand where type `declared` is asked for.
pub open spec fn assignable(declared: ValueType, actual: ValueType) -> bool {
    declared == ValueType::Any || declared == actual
}

/// Reading back the display form of a value whose type can be read from text
/// gives the value again.
pub proof fn lemma_parse_display(v: ValueView)
    requires
        parses_text(v.value_type()),
    ensures
        parse_spec(v.value_type(), v.display()) == Ok::<ValueView, ErrorView>(v),
{
    match v {
        ValueView::Integer(i) => {
            lemma_integer_round_trip(i as int);
        },
        ValueView::Bool(b) => {
            reveal_strlit("true");
            reveal_strlit("false");
            assert("true"@.len() != "false"@.len());
        },
        _ => {},
    }
}

/// A value read from text has the type that it was read as.
pub proof fn lemma_parse_gives_type(t: ValueType, text: Seq<char>)
    ensures
        parse_spec(t, text) matches Ok(v) ==> v.value_type() == t,
{
}

/// A type's name names that type, unless the type is a list.
pub proof fn lemma_type_name_round_trip(t: ValueType)
    requires
        !(t is List),
    ensures
        type_named(name_of_type(t)) == Some(t),
{
    reveal_strlit("empty");
    reveal_strlit("string");
    reveal_strlit("integer");
    reveal_strlit("bool");
    reveal_strlit("char");
    reveal_strlit("binary");
    reveal_strlit("glob");
    reveal_strlit("file");
    reveal_strlit("duration");
    reveal_strlit("binary_reader");
    reveal_strlit("command");
    reveal_strlit("stream");
    reveal_strlit("any");
    let n = name_of_type(t);
    assert("empty"@.len() == 5 && "string"@.len() == 6 && "integer"@.len() == 7);
    assert("bool"@.len() == 4 && "char"@.len() == 4 && "binary"@.len() == 6);
    assert("glob"@.len() == 4 && "file"@.len() == 4 && "duration"@.len() == 8);
    assert("binary_reader"@.len() == 13 && "command"@.len() == 7 && "stream"@.len() == 6);
    assert("any"@.len() == 3);
    // Names of one length differ in their first or second character.
    assert("empty"@[0] == 'e' && "string"@[0] == 's' && "stream"@[0] == 's' && "binary"@[0] == 'b');
    assert("string"@[3] == 'i' && "stream"@[3] == 'e');
    assert("bool"@[0] == 'b' && "char"@[0] == 'c' && "glob"@[0] == 'g' && "file"@[0] == 'f');
    assert("integer"@[0] == 'i' && "command"@[0] == 'c');
}

impl Clone for ValueType {
    fn clone(&self) -> (t: ValueType)
        ensures
            t == *self,
        decreases self,
    {
        match self {
            ValueType::Empty => ValueType::Empty,
            ValueType::Text => ValueType::Text,
            ValueType::Integer => ValueType::Integer,
            ValueType::Bool => ValueType::Bool,
            ValueType::Char => ValueType::Char,
            ValueType::Binary => ValueType::Binary,
            ValueType::Glob => ValueType::Glob,
            ValueType::File => ValueType::File,
            ValueType::Duration => ValueType::Duration,
            ValueType::List(a) => ValueType::List(Box::new((&**a).clone())),
            ValueType::BinaryReader => ValueType::BinaryReader,
            ValueType::Command => ValueType::Command,
            ValueType::Stream => ValueType::Stream,
            ValueType::Any => ValueType::Any,
        }
    }
}

impl ValueType {
    /// Whether the two descriptors are the same.
    pub fn equals(&self, other: &ValueType) -> (r: bool)
        ensures
            r == (*self == *other),
        decreases self,
    {
        match self {
            ValueType::Empty => matches!(other, ValueType::Empty),
            ValueType::Text => matches!(other, ValueType::Text),
            ValueType::Integer => matches!(other, ValueType::Integer),
            ValueType::Bool => matches!(other, ValueType::Bool),
            ValueType::Char => matches!(other, ValueType::Char),
            ValueType::Binary => matches!(other, ValueType::Binary),
            ValueType::Glob => matches!(other, ValueType::Glob),
            ValueType::File => matches!(other, ValueType::File),
            ValueType::Duration => matches!(other, ValueType::Duration),
            ValueType::List(a) => match other {
                ValueType::List(b) => a.equals(b),
                _ => false,
            },
            ValueType::BinaryReader => matches!(other, ValueType::BinaryReader),
            ValueType::Command => matches!(other, ValueType::Command),
            ValueType::Stream => matches!(other, ValueType::Stream),
            ValueType::Any => matches!(other, ValueType::Any),
        }
    }

    /// The name of this type.
    pub fn name(&self) -> (n: &'static str)
        ensures
            n@ == name_of_type(*self),
    {
        match self {
            ValueType::Empty => "empty",
            ValueType::Text => "string",
            ValueType::Integer => "integer",
            ValueType::Bool => "bool",
            ValueType::Char => "char",
            ValueType::Binary => "binary",
            ValueType::Glob => "glob",
            ValueType::File => "file",
            ValueType::Duration => "duration",
            ValueType::List(_) => "list",
            ValueType::BinaryReader => "binary_reader",
            ValueType::Command => "command",
            ValueType::Stream => "stream",
            ValueType::Any => "any",
        }
    }

    /// The type that `name` names, or a `Type` error for a name that names none.
    pub fn from(name: &str) -> (r: CrushResult<ValueType>)
        ensures
            match r {
                Ok(t) => type_named(name@) == Some(t),
                Err(e) => type_named(name@) is None && e@ == unknown_type(name@),
            },
    {
        if text_eq(name, "empty") {
            Ok(ValueType::Empty)
        } else if text_eq(name, "string") {
            Ok(ValueType::Text)
        } else if text_eq(name, "integer") {
            Ok(ValueType::Integer)
        } else if text_eq(name, "bool") {
            Ok(ValueType::Bool)
        } else if text_eq(name, "char") {
            Ok(ValueType::Char)
        } else if text_eq(name, "binary") {
            Ok(ValueType::Binary)
        } else if text_eq(name, "glob") {
            Ok(ValueType::Glob)
        } else if text_eq(name, "file") {
            Ok(ValueType::File)
        } else if text_eq(name, "duration") {
            Ok(ValueType::Duration)
        } else if text_eq(name, "binary_reader") {
            Ok(ValueType::BinaryReader)
        } else if text_eq(name, "command") {
            Ok(ValueType::Command)
        } else if text_eq(name, "stream") {
            Ok(ValueType::Stream)
        } else if text_eq(name, "any") {
            Ok(ValueType::Any)
        } else {
            Err(CrushError::with_detail(ErrorKind::Type, "Unknown type ", name))
        }
    }

    /// The `Parse` error for `text` that is no value of this type.
    fn invalid(&self, text: &str) -> (e: CrushError)
        ensures
            e@ == parse_error(*self, text@),
    {
        let mut message = "Invalid ".to_owned();
        message.append(self.name());
        message.append(": ");
        message.append(text);
        assert(message@ =~= "Invalid "@ + name_of_type(*self) + ": "@ + text@);
        CrushError { kind: ErrorKind::Parse, message }
    }

    /// Reads `text` as a value of this type.
    pub fn parse(&self, text: &str) -> (r: CrushResult<Value>)
        ensures
            match r {
                Ok(v) => parse_spec(*self, text@) == Ok::<ValueView, ErrorView>(v@),
                Err(e) => parse_spec(*self, text@) == Err::<ValueView, ErrorView>(e@),
            },
    {
        match self {
            ValueType::Text => Ok(Value::Text(text.to_owned())),
            ValueType::Integer => match parse_integer(text) {
                Some(v) => Ok(Value::Integer(v)),
                None => Err(self.invalid(text)),
            },
            ValueType::Bool => if text_eq(text, "true") {
                Ok(Value::Bool(true))
            } else if text_eq(text, "false") {
                Ok(Value::Bool(false))
            } else {
                Err(self.invalid(text))
            },
            ValueType::Char => {
                let chars = chars_of(text);
                if chars.len() == 1 {
                    Ok(Value::Char(char_at(&chars, 0)))
                } else {
                    Err(self.invalid(text))
                }
            },
            ValueType::Glob => Ok(Value::Glob(Glob::new(text))),
            ValueType::File => Ok(Value::File(text.to_owned())),
            _ => Err(self.invalid(text)),
        }
    }

    /// Whether `value` may stand where this type is asked for.
    pub fn is(&self, value: &Value) -> (r: bool)
        ensures
            r == assignable(*self, value@.value_type()),
    {
        match self {
            ValueType::Any => true,
            _ => self.equals(&value.value_type()),
        }
    }
}

impl Value {
    /// The type of this value.
    pub fn value_type(&self) -> (t: ValueType)
        ensures
            t == self@.value_type(),
    {
        match self {
            Value::Empty => ValueType::Empty,
            Value::Text(_) => ValueType::Text,
            Value::Integer(_) => ValueType::Integer,
            Value::Bool(_) => ValueType::Bool,
            Value::Char(_) => ValueType::Char,
            Value::Binary(_) => ValueType::Binary,
            Value::Glob(_) => ValueType::Glob,
            Value::File(_) => ValueType::File,
            Value::Duration(_) => ValueType::Duration,
            Value::List(t, _) => ValueType::List(Box::new(t.clone())),
            Value::BinaryReader(_) => ValueType::BinaryReader,
            Value::Command(_) => ValueType::Command,
            Value::Stream(_) => ValueType::Stream,
        }
    }

    /// The display form of this value.
    pub fn to_text(&self) -> (s: String)
        ensures
            s@ == self@.display(),
    {
        match self {
            Value::Empty => String::new(),
            Value::Text(s) => s.clone(),
            Value::Integer(i) => integer_to_string(*i),
            Value::Bool(b) => if *b {
                "true".to_owned()
            } else {
                "false".to_owned()
            },
            Value::Char(c) => {
                let mut s = String::new();
                s.push(*c);
                assert(s@ =~= seq![*c]);
                s
            },
            Value::Binary(_) => "<binary>".to_owned(),
            Value::Glob(g) => g.to_text(),
            Value::File(p) => p.clone(),
            Value::Duration(d) => integer_to_string(*d as i128),
            Value::List(_, _) => "<list>".to_owned(),
            Value::BinaryReader(_) => "<binary_reader>".to_owned(),
            Value::Command(_) => "<command>".to_owned(),
            Value::Stream(_) => "<stream>".to_owned(),
        }
    }
}

} // verus!
