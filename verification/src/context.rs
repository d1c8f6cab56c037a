//! What a running command is handed: its arguments, its receiver, the two
//! ends of its conduits, the files that the host opened for it, and the sink
//! for its diagnostics.

use vstd::prelude::*;
use crate::errors::{error_view, CrushError, CrushResult, ErrorKind, ErrorView};
use crate::glob::{matching, Glob};
use crate::printer::{DiagnosticView, Printer};
use crate::stream::{bound_error, closed_error, Stream, StreamView};
use crate::table::{ColumnView, Schema};
use crate::text::text_eq;
use crate::value::{texts_of, BinaryReader, ReaderView, Value, ValueView};

verus! {

/// One argument of a call: its name, if it was given by name, and its value.
#[derive(Debug, PartialEq, Eq)]
pub struct Argument {
    pub name: Option<String>,
    pub value: Value,
}

/// The mathematical content of an `Argument`.
pub struct ArgumentView {
    pub name: Option<Seq<char>>,
    pub value: ValueView,
}

/// The view of an optional name.
pub open spec fn name_of(name: Option<String>) -> Option<Seq<char>> {
    match name {
        Some(n) => Some(n@),
        None => None,
    }
}

impl View for Argument {
    type V = ArgumentView;

    open spec fn view(&self) -> ArgumentView {
        ArgumentView { name: name_of(self.name), value: self.value@ }
    }
}

impl Argument {
    /// The argument `name=value`.
    pub fn named(name: &str, value: Value) -> (a: Argument)
        ensures
            a@ == (ArgumentView { name: Some(name@), value: value@ }),
    {
        Argument { name: Some(name.to_owned()), value }
    }

    /// The positional argument `value`.
    pub fn unnamed(value: Value) -> (a: Argument)
        ensures
            a@ == (ArgumentView { name: None, value: value@ }),
    {
        Argument { name: None, value }
    }
}

/// The views of a sequence of arguments, in order.
pub open spec fn arguments_of(arguments: Seq<Argument>) -> Seq<ArgumentView> {
    Seq::new(arguments.len(), |i: int| arguments[i]@)
}

/// The error for an argument that is not there.
pub open spec fn missing_argument() -> ErrorView {
    error_view(ErrorKind::Argument, "Missing argument"@)
}

/// The error for an argument that is no text.
pub open spec fn not_a_string() -> ErrorView {
    error_view(ErrorKind::Argument, "Expected an argument of type string"@)
}

/// The error for a receiver that is no glob.
pub open spec fn not_a_glob() -> ErrorView {
    error_view(ErrorKind::Argument, "Expected a receiver of type glob"@)
}

/// The text of the argument at position `idx`.
pub open spec fn string_at(arguments: Seq<ArgumentView>, idx: int) -> Result<Seq<char>, ErrorView> {
    if idx < 0 || idx >= arguments.len() {
        Err(missing_argument())
    } else {
        match arguments[idx].value {
            ValueView::Text(s) => Ok(s),
            _ => Err(not_a_string()),
        }
    }
}

/// The pattern of a receiver that is a glob.
pub open spec fn glob_of(this: Option<ValueView>) -> Result<Seq<char>, ErrorView> {
    match this {
        Some(ValueView::Glob(p)) => Ok(p),
        _ => Err(not_a_glob()),
    }
}

/// Typed access to the arguments of a call.
pub trait ArgumentVector {
    /// The text of the argument at position `idx`.
    fn string(&self, idx: usize) -> (r: CrushResult<String>)
        ensures
            match r {
                Ok(s) => self.string_spec(idx as int) == Ok::<Seq<char>, ErrorView>(s@),
                Err(e) => self.string_spec(idx as int) == Err::<Seq<char>, ErrorView>(e@),
            },
    ;

    /// What `string` answers.
    spec fn string_spec(&self, idx: int) -> Result<Seq<char>, ErrorView>;
}

impl ArgumentVector for Vec<Argument> {
    open spec fn string_spec(&self, idx: int) -> Result<Seq<char>, ErrorView> {
        string_at(arguments_of(self@), idx)
    }

    fn string(&self, idx: usize) -> (r: CrushResult<String>) {
        if idx >= self.len() {
            return Err(CrushError::new(ErrorKind::Argument, "Missing argument"));
        }
        match &self[idx].value {
            Value::Text(s) => Ok(s.clone()),
            _ => Err(CrushError::new(ErrorKind::Argument, "Expected an argument of type string")),
        }
    }
}

/// Typed access to the receiver of a method call.
pub trait This {
    /// The receiver, which must be a glob.
    fn glob(&self) -> (r: CrushResult<Glob>)
        ensures
            match r {
                Ok(g) => self.glob_spec() == Ok::<Seq<char>, ErrorView>(g@),
                Err(e) => self.glob_spec() == Err::<Seq<char>, ErrorView>(e@),
            },
    ;

    /// What `glob` answers.
    spec fn glob_spec(&self) -> Result<Seq<char>, ErrorView>;
}

/// The view of an optional value.
pub open spec fn value_of(value: Option<Value>) -> Option<ValueView> {
    match value {
        Some(v) => Some(v@),
        None => None,
    }
}

impl This for Option<Value> {
    open spec fn glob_spec(&self) -> Result<Seq<char>, ErrorView> {
        glob_of(value_of(*self))
    }

    fn glob(&self) -> (r: CrushResult<Glob>) {
        match self {
            Some(Value::Glob(g)) => Ok(g.duplicate()),
            _ => Err(CrushError::new(ErrorKind::Argument, "Expected a receiver of type glob")),
        }
    }
}

/// The mathematical content of a `ValueSender`.
pub struct SenderView {
    /// The value that was sent, if one was.
    pub value: Option<ValueView>,
    /// The row stream, which is bound once the output was initialized.
    pub stream: StreamView,
}

impl SenderView {
    /// Whether the output was used: a value was sent, or the stream is bound.
    pub open spec fn used(self) -> bool {
        self.value is Some || self.stream.schema is Some
    }

    /// The answer to sending a value or binding the stream: the consumer must
    /// still be there, and the output must not have been used.
    pub open spec fn claim_result(self) -> Result<(), ErrorView> {
        if !self.stream.receiver_open {
            Err(closed_error())
        } else if self.used() {
            Err(bound_error())
        } else {
            Ok(())
        }
    }

    /// The output after an attempt to send `value`.
    pub open spec fn after_send(self, value: ValueView) -> SenderView {
        if self.claim_result() is Ok {
            SenderView { value: Some(value), ..self }
        } else {
            self
        }
    }

    /// The output after an attempt to bind its stream to `schema`.
    pub open spec fn after_initialize(self, schema: Seq<ColumnView>) -> SenderView {
        if self.claim_result() is Ok {
            SenderView { stream: self.stream.after_initialize(schema), ..self }
        } else {
            self
        }
    }
}

/// The output end of a stage: it carries either one value or a stream of rows.
#[derive(Debug, PartialEq, Eq)]
pub struct ValueSender {
    pub value: Option<Value>,
    pub stream: Stream,
}

impl View for ValueSender {
    type V = SenderView;

    open spec fn view(&self) -> SenderView {
        SenderView { value: value_of(self.value), stream: self.stream@ }
    }
}

impl ValueSender {
    /// An unused output whose stream can hold `capacity` rows.
    pub fn new(capacity: usize) -> (s: ValueSender)
        ensures
            s@ == (SenderView { value: None, stream: StreamView::empty(capacity as nat) }),
    {
        ValueSender { value: None, stream: Stream::new(capacity) }
    }

    /// Whether the consumer is still there and the output was not used.
    fn claim(&self) -> (r: CrushResult<()>)
        ensures
            match r {
                Ok(_) => self@.claim_result() is Ok,
                Err(e) => self@.claim_result() == Err::<(), ErrorView>(e@),
            },
    {
        match self.stream.recv_open() {
            false => Err(CrushError::new(ErrorKind::Closed, "Stream is closed")),
            true => if self.value.is_some() || self.stream.schema().is_some() {
                Err(CrushError::new(ErrorKind::AlreadyInitialized, "Stream is already initialized"))
            } else {
                Ok(())
            },
        }
    }

    /// Sends the one value that this output is to carry.
    pub fn send(&mut self, value: Value) -> (r: CrushResult<()>)
        ensures
            final(self)@ == old(self)@.after_send(value@),
            match r {
                Ok(_) => old(self)@.claim_result() is Ok,
                Err(e) => old(self)@.claim_result() == Err::<(), ErrorView>(e@),
            },
    {
        match self.claim() {
            Ok(_) => {
                self.value = Some(value);
                Ok(())
            },
            Err(e) => Err(e),
        }
    }

    /// Binds the output to `schema`, after which rows can be sent on its
    /// stream.
    pub fn initialize(&mut self, schema: Schema) -> (r: CrushResult<()>)
        ensures
            final(self)@ == old(self)@.after_initialize(schema@),
            match r {
                Ok(_) => old(self)@.claim_result() is Ok,
                Err(e) => old(self)@.claim_result() == Err::<(), ErrorView>(e@),
            },
    {
        match self.claim() {
            Ok(_) => {
                let bound = self.stream.initialize(schema);
                assert(bound is Ok);
                Ok(())
            },
            Err(e) => Err(e),
        }
    }
}

/// The input end of a stage: the value that the stage before it sent, if any.
#[derive(Debug, PartialEq, Eq)]
pub struct ValueReceiver {
    pub value: Option<Value>,
}

impl View for ValueReceiver {
    type V = Option<ValueView>;

    open spec fn view(&self) -> Option<ValueView> {
        value_of(self.value)
    }
}

impl ValueReceiver {
    /// An input end that holds `value`.
    pub fn new(value: Option<Value>) -> (r: ValueReceiver)
        ensures
            r@ == value_of(value),
    {
        ValueReceiver { value }
    }

    /// Takes the value. With no value there the other end is gone, which is a
    /// `Closed` error.
    pub fn recv(&mut self) -> (r: CrushResult<Value>)
        ensures
            final(self)@ is None,
            match r {
                Ok(v) => old(self)@ == Some(v@),
                Err(e) => old(self)@ is None && e@ == closed_error(),
            },
    {
        match self.value.take() {
            Some(v) => Ok(v),
            None => Err(CrushError::new(ErrorKind::Closed, "Stream is closed")),
        }
    }
}

/// A file that the host found for the call: its path and, if the host could
/// read it, its lines.
#[derive(Debug, PartialEq, Eq)]
pub struct FileEntry {
    pub path: String,
    pub lines: Option<Vec<String>>,
}

/// The mathematical content of a `FileEntry`.
pub struct FileView {
    pub path: Seq<char>,
    pub lines: Option<Seq<Seq<char>>>,
}

impl View for FileEntry {
    type V = FileView;

    open spec fn view(&self) -> FileView {
        FileView {
            path: self.path@,
            lines: match self.lines {
                Some(l) => Some(texts_of(l@)),
                None => None,
            },
        }
    }
}

/// The views of a sequence of files, in order.
pub open spec fn files_of(files: Seq<FileEntry>) -> Seq<FileView> {
    Seq::new(files.len(), |i: int| files[i]@)
}

/// The paths of `files`, in order.
pub open spec fn paths_of(files: Seq<FileView>) -> Seq<Seq<char>> {
    Seq::new(files.len(), |i: int| files[i].path)
}

/// The first of `files` that lies at `path`.
pub open spec fn file_at(files: Seq<FileView>, path: Seq<char>) -> Option<FileView>
    decreases files.len(),
{
    if files.len() == 0 {
        None
    } else if files[0].path == path {
        Some(files[0])
    } else {
        file_at(files.drop_first(), path)
    }
}

/// The error for a path at which the host found no file.
pub open spec fn no_such_file(path: Seq<char>) -> ErrorView {
    error_view(ErrorKind::Io, "No such file: "@ + path)
}

/// The error for a file that the host could not read.
pub open spec fn unreadable_file(path: Seq<char>) -> ErrorView {
    error_view(ErrorKind::Io, "Cannot read file: "@ + path)
}

/// The reader on the file at `path`, positioned at its first line.
pub open spec fn open_spec(files: Seq<FileView>, path: Seq<char>) -> Result<ReaderView, ErrorView> {
    match file_at(files, path) {
        None => Err(no_such_file(path)),
        Some(f) => match f.lines {
            None => Err(unreadable_file(path)),
            Some(lines) => Ok(ReaderView { lines, next: 0 }),
        },
    }
}

/// A copy of `lines`.
pub fn clone_lines(lines: &Vec<String>) -> (copy: Vec<String>)
    ensures
        texts_of(copy@) == texts_of(lines@),
{
    let mut copy: Vec<String> = Vec::new();
    let mut i: usize = 0;
    while i < lines.len()
        invariant
            i <= lines@.len(),
            copy@.len() == i,
            forall|k: int| 0 <= k < i ==> copy@[k]@ == lines@[k]@,
        decreases lines@.len() - i,
    {
        copy.push(lines[i].clone());
        i += 1;
    }
    assert(texts_of(copy@) =~= texts_of(lines@));
    copy
}

/// Opens the file at `path` among the files that the host found.
pub fn open_file(files: &Vec<FileEntry>, path: &str) -> (r: CrushResult<BinaryReader>)
    ensures
        match r {
            Ok(reader) => open_spec(files_of(files@), path@) == Ok::<ReaderView, ErrorView>(reader@),
            Err(e) => open_spec(files_of(files@), path@) == Err::<ReaderView, ErrorView>(e@),
        },
{
    let ghost all = files_of(files@);
    let mut i: usize = 0;
    assert(all.subrange(0, all.len() as int) =~= all);
    while i < files.len()
        invariant
            i <= files@.len(),
            all == files_of(files@),
            file_at(all, path@) == file_at(all.subrange(i as int, all.len() as int), path@),
        decreases files@.len() - i,
    {
        let ghost rest = all.subrange(i as int, all.len() as int);
        assert(rest[0] == files@[i as int]@);
        assert(rest.drop_first() =~= all.subrange(i + 1, all.len() as int));
        if text_eq(files[i].path.as_str(), path) {
            return match &files[i].lines {
                Some(lines) => Ok(BinaryReader::new(clone_lines(lines))),
                None => Err(CrushError::with_detail(ErrorKind::Io, "Cannot read file: ", path)),
            };
        }
        i += 1;
    }
    Err(CrushError::with_detail(ErrorKind::Io, "No such file: ", path))
}

/// Appends to `out` the paths of the files that `glob` matches, in the order
/// of `files`.
pub fn glob_files(glob: &Glob, files: &Vec<FileEntry>, out: &mut Vec<String>)
    ensures
        texts_of(final(out)@) == texts_of(old(out)@) + matching(glob@, paths_of(files_of(files@))),
{
    let ghost paths = paths_of(files_of(files@));
    let ghost before = texts_of(out@);
    let mut i: usize = 0;
    assert(paths.take(0) =~= Seq::<Seq<char>>::empty());
    assert(before + matching(glob@, paths.take(0)) =~= before);
    while i < files.len()
        invariant
            i <= files@.len(),
            paths == paths_of(files_of(files@)),
            texts_of(out@) == before + matching(glob@, paths.take(i as int)),
        decreases files@.len() - i,
    {
        let ghost done = paths.take(i as int);
        let ghost next = paths.take(i + 1);
        assert(next.drop_last() =~= done);
        assert(next.last() == files@[i as int].path@);
        if glob.matches(files[i].path.as_str()) {
            let ghost earlier = texts_of(out@);
            out.push(files[i].path.clone());
            assert(texts_of(out@) =~= earlier.push(files@[i as int].path@));
            assert(before + matching(glob@, done).push(next.last()) =~= (before + matching(
                glob@,
                done,
            )).push(next.last()));
        }
        i += 1;
    }
    assert(paths.take(files@.len() as int) =~= paths);
}

/// The mathematical content of an `ExecutionContext`.
pub struct ContextView {
    pub arguments: Seq<ArgumentView>,
    pub this: Option<ValueView>,
    pub input: Option<ValueView>,
    pub output: SenderView,
    pub files: Seq<FileView>,
    pub printer: Seq<DiagnosticView>,
}

/// What one invocation of a command is handed. Nothing in it is shared with
/// another invocation.
#[derive(Debug, PartialEq, Eq)]
pub struct ExecutionContext {
    /// The arguments of the call, in the order of the call site.
    pub arguments: Vec<Argument>,
    /// The receiver, for a call in method style.
    pub this: Option<Value>,
    /// The input end: what the stage before this one sent.
    pub input: ValueReceiver,
    /// The output end.
    pub output: ValueSender,
    /// The files that the host found in the working directory.
    pub files: Vec<FileEntry>,
    /// The sink for diagnostics that do not end the stage.
    pub printer: Printer,
}

impl View for ExecutionContext {
    type V = ContextView;

    open spec fn view(&self) -> ContextView {
        ContextView {
            arguments: arguments_of(self.arguments@),
            this: value_of(self.this),
            input: self.input@,
            output: self.output@,
            files: files_of(self.files@),
            printer: self.printer@,
        }
    }
}

} // verus!
