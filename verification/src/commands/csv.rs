//! Reads rows out of delimiter-separated text.
//!
//! `parse` turns the arguments of the call into a `Config`, `run` reads the
//! lines of the input and sends a row for each line that fits the declared
//! columns, and `perform` does the one after the other. A line that does not
//! fit is reported to the diagnostics sink and skipped.

use map_in_place::MapVecInPlace;
use vstd::prelude::*;
use crate::context::{
    arguments_of, files_of, glob_files, open_file, open_spec, paths_of, Argument, ArgumentView,
    ContextView, ExecutionContext, FileEntry, FileView, SenderView, ValueReceiver,
};
use crate::errors::{error_view, CrushError, CrushResult, ErrorKind, ErrorView};
use crate::glob::matching;
use crate::printer::{DiagnosticView, Printer};
use crate::stream::{
    closed_error, ReceivedView, RowView, SendOutcome, SendView, Stream, StreamView,
};
use crate::table::{
    clone_columns, columns_of, conforms, unique_names, ColumnType, ColumnView, Row, Schema,
};
use crate::text::{
    char_at, chars_of, split, split_spec, text_eq, trim_matches, trim_opt_spec, trim_spec, views_of,
};
use crate::value::{
    lemma_parse_gives_type, name_of_type, parse_spec, texts_of, type_named, unknown_type,
    values_of,
    BinaryReader, ReaderView, Value, ValueType, ValueView,
};

verus! {

/// What a call of the command asks for.
#[derive(Debug, PartialEq, Eq)]
pub struct Config {
    /// The character that separates the cells of a line.
    pub separator: char,
    /// The declared columns, in order.
    pub columns: Vec<ColumnType>,
    /// The number of lines at the head of the input that hold no data.
    pub skip_head: usize,
    /// The character to strip from both ends of every cell, if any.
    pub trim: Option<char>,
    /// The source of the lines.
    pub input: BinaryReader,
}

/// The mathematical content of a `Config`.
pub struct ConfigView {
    pub separator: char,
    pub columns: Seq<ColumnView>,
    pub skip_head: usize,
    pub trim: Option<char>,
    pub input: ReaderView,
}

impl View for Config {
    type V = ConfigView;

    open spec fn view(&self) -> ConfigView {
        ConfigView {
            separator: self.separator,
            columns: columns_of(self.columns@),
            skip_head: self.skip_head,
            trim: self.trim,
            input: self.input@,
        }
    }
}

/// A line without the newline that ends it.
pub open spec fn without_newline(line: Seq<char>) -> Seq<char> {
    if line.len() > 0 && line.last() == '\n' {
        line.drop_last()
    } else {
        line
    }
}

/// The cells of a line: the pieces between separators, each trimmed.
pub open spec fn cells_of(line: Seq<char>, separator: char, trim: Option<char>) -> Seq<Seq<char>> {
    let pieces = split_spec(without_newline(line), separator);
    Seq::new(pieces.len(), |i: int| trim_opt_spec(pieces[i], trim))
}

/// The values that `cells` denote under `columns`, one column for each cell,
/// or the error of the first cell that denotes none.
pub open spec fn parse_cells(columns: Seq<ColumnView>, cells: Seq<Seq<char>>) -> Result<
    RowView,
    ErrorView,
>
    decreases cells.len(),
{
    if cells.len() == 0 || columns.len() < cells.len() {
        Ok(Seq::empty())
    } else {
        match parse_cells(columns, cells.drop_last()) {
            Err(e) => Err(e),
            Ok(values) => match parse_spec(columns[cells.len() - 1].cell_type, cells.last()) {
                Err(e) => Err(e),
                Ok(v) => Ok(values.push(v)),
            },
        }
    }
}

/// The error for a line that has not one cell for each column.
pub open spec fn wrong_column_count() -> ErrorView {
    error_view(ErrorKind::Schema, "csv: Wrong number of columns in CSV file"@)
}

/// The row that a line denotes, or the error that says why it denotes none:
/// the number of cells is checked first, then the cells from left to right.
pub open spec fn line_spec(cfg: ConfigView, line: Seq<char>) -> Result<RowView, ErrorView> {
    let cells = cells_of(line, cfg.separator, cfg.trim);
    if cells.len() != cfg.columns.len() {
        Err(wrong_column_count())
    } else {
        parse_cells(cfg.columns, cells)
    }
}

/// How a run ended.
pub enum ProgressView {
    /// The input is exhausted.
    Finished,
    /// The output is full. The next line is still unread.
    Suspended,
}

/// What a run leaves behind.
pub struct RunView {
    /// The configuration, with its input at the first line that is unread and
    /// with the number of lines that are still to be skipped.
    pub config: ConfigView,
    pub output: StreamView,
    pub printer: Seq<DiagnosticView>,
    pub end: Result<ProgressView, ErrorView>,
}

/// How a line that denotes no row is reported: a line with the wrong number
/// of cells is a fault in the structure of the input and is reported as a
/// message, a cell that cannot be read as the error that says so.
pub open spec fn report_of(e: ErrorView) -> DiagnosticView {
    if e.kind == ErrorKind::Schema {
        DiagnosticView::Message(e.message)
    } else {
        DiagnosticView::Error(e)
    }
}

/// The configuration after one line was read.
pub open spec fn after_line(cfg: ConfigView) -> ConfigView {
    ConfigView { input: cfg.input.advanced(), ..cfg }
}

/// The configuration after one line at the head was skipped.
pub open spec fn after_skipped_line(cfg: ConfigView) -> ConfigView {
    ConfigView { skip_head: (cfg.skip_head - 1) as usize, ..after_line(cfg) }
}

/// What a run does, line by line.
///
/// The run finishes at the end of the input, which an empty line stands for
/// as well, and closes the output. As long as lines are to be skipped, a line
/// is skipped and counted. A line that denotes no row is reported and
/// skipped. A line that denotes a row is consumed only once the output took
/// the row: where the output is full the run is suspended, and where the
/// output is closed or unbound the run fails and ends the output with its
/// error, with the line left unread either way.
pub open spec fn run_spec(cfg: ConfigView, output: StreamView, printer: Seq<DiagnosticView>)
    -> RunView
    decreases cfg.input.lines.len() - cfg.input.next,
{
    let line = cfg.input.current();
    if line.len() == 0 {
        RunView {
            config: cfg,
            output: output.after_close(),
            printer,
            end: Ok(ProgressView::Finished),
        }
    } else if cfg.skip_head > 0 {
        run_spec(after_skipped_line(cfg), output, printer)
    } else {
        match line_spec(cfg, line) {
            Err(e) => run_spec(after_line(cfg), output, printer.push(report_of(e))),
            Ok(row) => match output.send_result(row) {
                Err(e) => RunView { config: cfg, output: output.after_fail(e), printer, end: Err(e) },
                Ok(SendView::Full(_)) => RunView {
                    config: cfg,
                    output,
                    printer,
                    end: Ok(ProgressView::Suspended),
                },
                Ok(SendView::Sent) => run_spec(after_line(cfg), output.after_send(row), printer),
            },
        }
    }
}

/// The configuration once the lines at the head are skipped: as many lines
/// as are to be skipped, or all that the input has left if those are fewer.
pub open spec fn after_head(cfg: ConfigView) -> ConfigView
    decreases cfg.input.lines.len() - cfg.input.next,
{
    if cfg.skip_head == 0 || cfg.input.current().len() == 0 {
        cfg
    } else {
        after_head(after_skipped_line(cfg))
    }
}

/// The rows that a run has still to send: those of the lines that are left
/// once the head is skipped, in the order of the lines.
pub open spec fn pending_rows(cfg: ConfigView) -> Seq<RowView>
    decreases cfg.input.lines.len() - cfg.input.next,
{
    let line = cfg.input.current();
    if line.len() == 0 {
        Seq::empty()
    } else if cfg.skip_head > 0 {
        pending_rows(after_skipped_line(cfg))
    } else {
        match line_spec(cfg, line) {
            Err(_) => pending_rows(after_line(cfg)),
            Ok(row) => seq![row] + pending_rows(after_line(cfg)),
        }
    }
}

/// The reports that a run has still to make, in the order of the lines.
pub open spec fn pending_reports(cfg: ConfigView) -> Seq<DiagnosticView>
    decreases cfg.input.lines.len() - cfg.input.next,
{
    let line = cfg.input.current();
    if line.len() == 0 {
        Seq::empty()
    } else if cfg.skip_head > 0 {
        pending_reports(after_skipped_line(cfg))
    } else {
        match line_spec(cfg, line) {
            Err(e) => seq![report_of(e)] + pending_reports(after_line(cfg)),
            Ok(_) => pending_reports(after_line(cfg)),
        }
    }
}

/// Skipping the head is all that the number of lines to skip does: a run
/// does what a run without lines to skip does on the input behind the head.
/// The skipped lines, one for each count, send no row and make no report.
pub proof fn lemma_head_is_skipped(
    cfg: ConfigView,
    output: StreamView,
    printer: Seq<DiagnosticView>,
)
    ensures
        run_spec(cfg, output, printer) == run_spec(after_head(cfg), output, printer),
        after_head(cfg).skip_head == 0 || after_head(cfg).input.current().len() == 0,
        after_head(cfg).input.lines == cfg.input.lines,
        after_head(cfg).input.next - cfg.input.next == cfg.skip_head - after_head(cfg).skip_head,
        after_head(cfg) == (ConfigView {
            input: after_head(cfg).input,
            skip_head: after_head(cfg).skip_head,
            ..cfg
        }),
    decreases cfg.input.lines.len() - cfg.input.next,
{
    if !(cfg.skip_head == 0 || cfg.input.current().len() == 0) {
        lemma_head_is_skipped(after_skipped_line(cfg), output, printer);
    }
}

/// The rows that one run sends: those of its lines, in order, up to the
/// first that the output does not take.
pub open spec fn sent_rows(cfg: ConfigView, output: StreamView) -> Seq<RowView>
    decreases cfg.input.lines.len() - cfg.input.next,
{
    let line = cfg.input.current();
    if line.len() == 0 {
        Seq::empty()
    } else if cfg.skip_head > 0 {
        sent_rows(after_skipped_line(cfg), output)
    } else {
        match line_spec(cfg, line) {
            Err(_) => sent_rows(after_line(cfg), output),
            Ok(row) => match output.send_result(row) {
                Ok(SendView::Sent) => seq![row] + sent_rows(after_line(cfg), output.after_send(row)),
                _ => Seq::empty(),
            },
        }
    }
}

/// Whether the producer's end tells the truth about what is left: as long as
/// rows are still to be sent, the output is open or has ended with an error.
pub open spec fn end_is_honest(cfg: ConfigView, output: StreamView) -> bool {
    output.sender_open || output.failure is Some || pending_rows(cfg).len() == 0
}

/// A run sends the rows of its lines in the order of the lines, and loses
/// none: what it sends goes to the back of the output, and what it sends
/// followed by what is left to send is what was to be sent. The same holds of
/// the reports. A run that finishes has nothing left to send, and only such a
/// run closes an open output cleanly.
pub proof fn lemma_run_keeps_order(cfg: ConfigView, output: StreamView, printer: Seq<DiagnosticView>)
    ensures
        ({
            let end = run_spec(cfg, output, printer);
            &&& end.output.queue == output.queue + sent_rows(cfg, output)
            &&& pending_rows(cfg) == sent_rows(cfg, output) + pending_rows(end.config)
            &&& end.printer + pending_reports(end.config) == printer + pending_reports(cfg)
            &&& end.output.receiver_open == output.receiver_open
            &&& end.end == Ok::<ProgressView, ErrorView>(ProgressView::Finished) ==> {
                &&& pending_rows(end.config) == Seq::<RowView>::empty()
                &&& pending_reports(end.config) == Seq::<DiagnosticView>::empty()
                &&& !end.output.sender_open
            }
            &&& end_is_honest(cfg, output) ==> end_is_honest(end.config, end.output)
        }),
    decreases cfg.input.lines.len() - cfg.input.next,
{
    let line = cfg.input.current();
    let end = run_spec(cfg, output, printer);
    if line.len() == 0 {
        assert(output.queue + sent_rows(cfg, output) =~= output.queue);
        assert(sent_rows(cfg, output) + pending_rows(cfg) =~= pending_rows(cfg));
    } else if cfg.skip_head > 0 {
        lemma_run_keeps_order(after_skipped_line(cfg), output, printer);
    } else {
        match line_spec(cfg, line) {
            Err(e) => {
                let reported = printer.push(report_of(e));
                lemma_run_keeps_order(after_line(cfg), output, reported);
                assert(reported + pending_reports(after_line(cfg)) =~= printer + (seq![report_of(e)]
                    + pending_reports(after_line(cfg))));
            },
            Ok(row) => match output.send_result(row) {
                Ok(SendView::Sent) => {
                    let sent = output.after_send(row);
                    let rest = after_line(cfg);
                    lemma_run_keeps_order(rest, sent, printer);
                    assert(sent.queue + sent_rows(rest, sent) =~= output.queue + (seq![row]
                        + sent_rows(rest, sent)));
                    assert(seq![row] + (sent_rows(rest, sent) + pending_rows(end.config)) =~= (
                    seq![row] + sent_rows(rest, sent)) + pending_rows(end.config));
                    assert(end_is_honest(rest, sent));
                },
                _ => {
                    assert(output.queue + sent_rows(cfg, output) =~= output.queue);
                    assert(sent_rows(cfg, output) + pending_rows(cfg) =~= pending_rows(cfg));
                },
            },
        }
    }
}

/// A run that finds room in an open output for every row that is left
/// finishes, and leaves all of them in the output, in the order of the lines.
pub proof fn lemma_run_with_room(cfg: ConfigView, output: StreamView, printer: Seq<DiagnosticView>)
    requires
        output.open(),
        output.schema is Some,
        output.queue.len() + pending_rows(cfg).len() <= output.capacity,
    ensures
        ({
            let end = run_spec(cfg, output, printer);
            &&& end.end == Ok::<ProgressView, ErrorView>(ProgressView::Finished)
            &&& end.output == (StreamView {
                queue: output.queue + pending_rows(cfg),
                sender_open: false,
                ..output
            })
            &&& end.printer == printer + pending_reports(cfg)
        }),
    decreases cfg.input.lines.len() - cfg.input.next,
{
    let line = cfg.input.current();
    if line.len() == 0 {
        assert(output.queue + pending_rows(cfg) =~= output.queue);
        assert(printer + pending_reports(cfg) =~= printer);
    } else if cfg.skip_head > 0 {
        lemma_run_with_room(after_skipped_line(cfg), output, printer);
    } else {
        match line_spec(cfg, line) {
            Err(e) => {
                let reported = printer.push(report_of(e));
                lemma_run_with_room(after_line(cfg), output, reported);
                assert(reported + pending_reports(after_line(cfg)) =~= printer + (seq![report_of(e)]
                    + pending_reports(after_line(cfg))));
            },
            Ok(row) => {
                let sent = output.after_send(row);
                lemma_run_with_room(after_line(cfg), sent, printer);
                assert(sent.queue + pending_rows(after_line(cfg)) =~= output.queue + (seq![row]
                    + pending_rows(after_line(cfg))));
            },
        }
    }
}

/// Whose turn it is while a run and its consumer take turns.
pub enum Turn {
    /// The producer runs, or takes its run up again.
    Producer,
    /// The consumer makes one receive.
    Consumer,
}

/// A run and its consumer, with the rows that the consumer has received.
pub struct ExchangeView {
    pub config: ConfigView,
    pub output: StreamView,
    pub printer: Seq<DiagnosticView>,
    pub delivered: Seq<RowView>,
}

/// The exchange after one turn.
pub open spec fn after_turn(x: ExchangeView, turn: Turn) -> ExchangeView {
    match turn {
        Turn::Producer => {
            let end = run_spec(x.config, x.output, x.printer);
            ExchangeView { config: end.config, output: end.output, printer: end.printer, ..x }
        },
        Turn::Consumer => ExchangeView {
            output: x.output.after_recv(),
            delivered: match x.output.recv_result() {
                Ok(ReceivedView::Row(row)) => x.delivered.push(row),
                _ => x.delivered,
            },
            ..x
        },
    }
}

/// The exchange after `turns`, taken first to last.
pub open spec fn after_turns(x: ExchangeView, turns: Seq<Turn>) -> ExchangeView
    decreases turns.len(),
{
    if turns.len() == 0 {
        x
    } else {
        after_turn(after_turns(x, turns.drop_last()), turns.last())
    }
}

/// However a run and its consumer take turns, with the run suspended on a
/// full output and taken up again as often as it happens, no row is lost,
/// doubled or moved: the rows received, then the rows in the output, then the
/// rows still to be sent are those that there were at the start. Once the
/// consumer finds the end of the data, it has received them all.
pub proof fn lemma_exchange_delivers_all(x: ExchangeView, turns: Seq<Turn>)
    requires
        end_is_honest(x.config, x.output),
    ensures
        ({
            let y = after_turns(x, turns);
            &&& y.delivered + y.output.queue + pending_rows(y.config) == x.delivered
                + x.output.queue + pending_rows(x.config)
            &&& y.printer + pending_reports(y.config) == x.printer + pending_reports(x.config)
            &&& end_is_honest(y.config, y.output)
            &&& y.output.recv_result() == Ok::<ReceivedView, ErrorView>(ReceivedView::EndOfData)
                ==> y.delivered == x.delivered + x.output.queue + pending_rows(x.config)
        }),
    decreases turns.len(),
{
    let y = after_turns(x, turns);
    if turns.len() == 0 {
    } else {
        let before = after_turns(x, turns.drop_last());
        lemma_exchange_delivers_all(x, turns.drop_last());
        match turns.last() {
            Turn::Producer => {
                lemma_run_keeps_order(before.config, before.output, before.printer);
                let sent = sent_rows(before.config, before.output);
                assert(before.delivered + (before.output.queue + sent) + pending_rows(y.config)
                    =~= before.delivered + before.output.queue + (sent + pending_rows(y.config)));
            },
            Turn::Consumer => {
                if before.output.receiver_open && before.output.queue.len() > 0 {
                    assert(before.delivered.push(before.output.queue[0])
                        + before.output.queue.drop_first() =~= before.delivered
                        + before.output.queue);
                }
            },
        }
    }
    if y.output.recv_result() == Ok::<ReceivedView, ErrorView>(ReceivedView::EndOfData) {
        assert(y.output.queue.len() == 0);
        assert(pending_rows(y.config).len() == 0);
        assert(y.delivered + y.output.queue + pending_rows(y.config) =~= y.delivered);
    }
}

/// Whether two readers have the same lines left to read.
pub open spec fn same_rest(a: ReaderView, b: ReaderView) -> bool {
    &&& a.lines.len() - a.next == b.lines.len() - b.next || (a.next >= a.lines.len() && b.next
        >= b.lines.len())
    &&& forall|i: int|
        0 <= i && a.next + i < a.lines.len() ==> #[trigger] a.lines[a.next + i] == b.lines[b.next
            + i]
}

/// A run looks only at the lines that are left to read: on two inputs with
/// the same lines left, whatever was read from them before, it sends the same
/// rows, makes the same reports, ends alike and leaves the same lines unread.
pub proof fn lemma_run_reads_what_is_left(
    a: ConfigView,
    b: ConfigView,
    output: StreamView,
    printer: Seq<DiagnosticView>,
)
    requires
        same_rest(a.input, b.input),
        b == (ConfigView { input: b.input, ..a }),
    ensures
        ({
            let x = run_spec(a, output, printer);
            let y = run_spec(b, output, printer);
            &&& x.output == y.output
            &&& x.printer == y.printer
            &&& x.end == y.end
            &&& same_rest(x.config.input, y.config.input)
            &&& y.config == (ConfigView { input: y.config.input, ..x.config })
        }),
    decreases a.input.lines.len() - a.input.next,
{
    let line = a.input.current();
    if a.input.next < a.input.lines.len() {
        let first: int = 0;
        assert(a.input.lines[a.input.next + first] == b.input.lines[b.input.next + first]);
    }
    assert(b.input.current() == line);
    assert(same_rest(a.input.advanced(), b.input.advanced())) by {
        let a1 = a.input.advanced();
        let b1 = b.input.advanced();
        assert forall|i: int| 0 <= i && a1.next + i < a1.lines.len() implies #[trigger] a1.lines[a1.next
            + i] == b1.lines[b1.next + i] by {
            if a.input.next < a.input.lines.len() {
                assert(a.input.lines[a.input.next + (i + 1)] == b.input.lines[b.input.next + (i
                    + 1)]);
            }
        }
    }
    if line.len() == 0 {
    } else if a.skip_head > 0 {
        lemma_run_reads_what_is_left(after_skipped_line(a), after_skipped_line(b), output, printer);
    } else {
        assert(line_spec(a, line) == line_spec(b, line));
        match line_spec(a, line) {
            Err(e) => {
                lemma_run_reads_what_is_left(
                    after_line(a),
                    after_line(b),
                    output,
                    printer.push(report_of(e)),
                );
            },
            Ok(row) => match output.send_result(row) {
                Ok(SendView::Sent) => {
                    lemma_run_reads_what_is_left(
                        after_line(a),
                        after_line(b),
                        output.after_send(row),
                        printer,
                    );
                },
                _ => {},
            },
        }
    }
}

/// How a run ended.
#[derive(Debug, PartialEq, Eq)]
pub enum Progress {
    /// The input is exhausted.
    Finished,
    /// The output is full: run again once the consumer has made room.
    Suspended,
}

impl View for Progress {
    type V = ProgressView;

    open spec fn view(&self) -> ProgressView {
        match self {
            Progress::Finished => ProgressView::Finished,
            Progress::Suspended => ProgressView::Suspended,
        }
    }
}

/// What the arguments have said so far.
pub struct Settings {
    pub separator: char,
    pub columns: Seq<ColumnView>,
    pub skip_head: usize,
    pub trim: Option<char>,
    /// The paths of the file operands, in the order of the call.
    pub files: Seq<Seq<char>>,
}

/// The settings of a call without arguments: cells are separated by commas,
/// no column is declared, no line is skipped, nothing is trimmed, and no file
/// is named.
pub open spec fn default_settings() -> Settings {
    Settings { separator: ',', columns: Seq::empty(), skip_head: 0, trim: None, files: Seq::empty() }
}

/// Whether `text` is one character that takes one byte.
pub open spec fn one_byte(text: Seq<char>) -> bool {
    text.len() == 1 && (text[0] as u32) < 128
}

/// The error for a parameter that the command does not have.
pub open spec fn unknown_parameter(name: Seq<char>) -> ErrorView {
    error_view(ErrorKind::Argument, "Unknown parameter "@ + name)
}

/// The error for a column description that is not of the form `name:type`.
pub open spec fn bad_column(text: Seq<char>) -> ErrorView {
    error_view(
        ErrorKind::Argument,
        "Expected a column description on the form name:type, got "@ + text,
    )
}

/// The error for a separator that is not one character.
pub open spec fn bad_separator() -> ErrorView {
    error_view(ErrorKind::Argument, "Separator must be exactly one character long"@)
}

/// The error for a trim text that is not one character.
pub open spec fn bad_trim() -> ErrorView {
    error_view(ErrorKind::Argument, "Only one character can be trimmed"@)
}

/// The error for input that is no source of lines.
pub open spec fn bad_input() -> ErrorView {
    error_view(ErrorKind::Argument, "Expected either a file to read or binary pipe input"@)
}

/// The error for more than one file operand.
pub open spec fn too_many_files() -> ErrorView {
    error_view(ErrorKind::Argument, "Expected a file name"@)
}

/// The paths that a positional argument names: a text or a file names itself,
/// a glob names the files of the host that it matches, and any other value
/// names nothing.
pub open spec fn operand_paths(value: ValueView, host: Seq<FileView>) -> Seq<Seq<char>> {
    match value {
        ValueView::Text(s) => seq![s],
        ValueView::File(p) => seq![p],
        ValueView::Glob(g) => matching(g, paths_of(host)),
        _ => Seq::empty(),
    }
}

/// The settings after the column description `text`.
pub open spec fn with_column(s: Settings, text: Seq<char>) -> Result<Settings, ErrorView> {
    let parts = split_spec(text, ':');
    if parts.len() != 2 {
        Err(bad_column(text))
    } else {
        match type_named(parts[1]) {
            None => Err(unknown_type(parts[1])),
            Some(t) => Ok(
                Settings { columns: s.columns.push(ColumnView { name: parts[0], cell_type: t }), ..s },
            ),
        }
    }
}

/// The error for a parameter that was given a value of another type than the
/// one it expects.
pub open spec fn wrong_type(name: Seq<char>, expected: ValueType) -> ErrorView {
    error_view(
        ErrorKind::Argument,
        "Parameter "@ + name + " expects a value of type "@ + name_of_type(expected),
    )
}

/// The settings after one more argument. The parameters `col`, `sep` and
/// `trim` expect a text, and `head` expects an integer.
pub open spec fn with_argument(s: Settings, arg: ArgumentView, host: Seq<FileView>) -> Result<
    Settings,
    ErrorView,
> {
    match arg.name {
        None => Ok(Settings { files: s.files + operand_paths(arg.value, host), ..s }),
        Some(name) => if name == "col"@ {
            match arg.value {
                ValueView::Text(text) => with_column(s, text),
                _ => Err(wrong_type(name, ValueType::Text)),
            }
        } else if name == "sep"@ {
            match arg.value {
                ValueView::Text(text) => if one_byte(text) {
                    Ok(Settings { separator: text[0], ..s })
                } else {
                    Err(bad_separator())
                },
                _ => Err(wrong_type(name, ValueType::Text)),
            }
        } else if name == "trim"@ {
            match arg.value {
                ValueView::Text(text) => if one_byte(text) {
                    Ok(Settings { trim: Some(text[0]), ..s })
                } else {
                    Err(bad_trim())
                },
                _ => Err(wrong_type(name, ValueType::Text)),
            }
        } else if name == "head"@ {
            match arg.value {
                ValueView::Integer(n) => Ok(Settings { skip_head: n as usize, ..s }),
                _ => Err(wrong_type(name, ValueType::Integer)),
            }
        } else {
            Err(unknown_parameter(name))
        },
    }
}

/// The settings after `arguments`, taken first to last, or the error of the
/// first argument that is refused.
pub open spec fn with_arguments(arguments: Seq<ArgumentView>, host: Seq<FileView>) -> Result<
    Settings,
    ErrorView,
>
    decreases arguments.len(),
{
    if arguments.len() == 0 {
        Ok(default_settings())
    } else {
        match with_arguments(arguments.drop_last(), host) {
            Err(e) => Err(e),
            Ok(s) => with_argument(s, arguments.last(), host),
        }
    }
}

/// The source of the lines: with no file operand the value on the input,
/// which must be a source of lines; with one file operand that file; more
/// than one file operand is refused.
pub open spec fn source_spec(files: Seq<Seq<char>>, input: Option<ValueView>, host: Seq<FileView>)
    -> Result<ReaderView, ErrorView> {
    if files.len() == 0 {
        match input {
            None => Err(closed_error()),
            Some(ValueView::BinaryReader(r)) => Ok(r),
            Some(_) => Err(bad_input()),
        }
    } else if files.len() == 1 {
        open_spec(host, files[0])
    } else {
        Err(too_many_files())
    }
}

/// The configuration that a call asks for.
pub open spec fn config_spec(
    arguments: Seq<ArgumentView>,
    input: Option<ValueView>,
    host: Seq<FileView>,
) -> Result<ConfigView, ErrorView> {
    match with_arguments(arguments, host) {
        Err(e) => Err(e),
        Ok(s) => match source_spec(s.files, input, host) {
            Err(e) => Err(e),
            Ok(reader) => Ok(
                ConfigView {
                    separator: s.separator,
                    columns: s.columns,
                    skip_head: s.skip_head,
                    trim: s.trim,
                    input: reader,
                },
            ),
        },
    }
}

/// The input end after the arguments were read: its value is taken exactly
/// when the arguments are accepted and name no file.
pub open spec fn input_after(
    arguments: Seq<ArgumentView>,
    input: Option<ValueView>,
    host: Seq<FileView>,
) -> Option<ValueView> {
    match with_arguments(arguments, host) {
        Ok(s) => if s.files.len() == 0 {
            None
        } else {
            input
        },
        Err(_) => input,
    }
}

/// A run and the configuration that it has reached.
pub struct JobView {
    pub config: ConfigView,
    pub progress: ProgressView,
}

/// A context whose output the producer has ended with `error`.
pub open spec fn failed(c: ContextView, error: ErrorView) -> ContextView {
    ContextView {
        output: SenderView { stream: c.output.stream.after_fail(error), ..c.output },
        ..c
    }
}

/// What performing the command does to its context, and what it answers: the
/// arguments are read, the output is bound to the declared columns, which
/// must differ in their names, and the lines are run through. Where any of
/// this fails, the output is ended with the error.
pub open spec fn perform_spec(c: ContextView) -> (ContextView, Result<JobView, ErrorView>) {
    let read = ContextView { input: input_after(c.arguments, c.input, c.files), ..c };
    match config_spec(c.arguments, c.input, c.files) {
        Err(e) => (failed(read, e), Err(e)),
        Ok(cfg) => if !unique_names(cfg.columns) {
            (failed(read, Schema::duplicate_name()), Err(Schema::duplicate_name()))
        } else {
            match c.output.claim_result() {
                Err(e) => (failed(read, e), Err(e)),
                Ok(_) => {
                    let bound = c.output.after_initialize(cfg.columns);
                    let end = run_spec(cfg, bound.stream, c.printer);
                    (
                        ContextView {
                            output: SenderView { stream: end.output, ..bound },
                            printer: end.printer,
                            ..read
                        },
                        match end.end {
                            Err(e) => Err(e),
                            Ok(progress) => Ok(JobView { config: end.config, progress }),
                        },
                    )
                },
            }
        },
    }
}

/// `MapVecInPlace::map` with `trim_matches` as the function: the cells come
/// back in their order, each without the runs of `c` at its ends.
#[verifier::external_body]
fn trim_cells<'a>(cells: Vec<&'a str>, c: char) -> (trimmed: Vec<&'a str>)
    ensures
        trimmed@.len() == cells@.len(),
        forall|i: int| 0 <= i < cells@.len() ==> (#[trigger] trimmed@[i])@ == trim_spec(cells@[i]@, c),
{
    cells.map(|s| trim_matches(s, c))
}

/// `line` without the newline that ends it.
fn strip_newline<'a>(line: &'a str) -> (content: &'a str)
    ensures
        content@ == without_newline(line@),
{
    let chars = chars_of(line);
    let n = chars.len();
    if n > 0 && chars[n - 1] == '\n' {
        let content = line.substring_char(0, n - 1);
        assert(content@ =~= line@.drop_last());
        content
    } else {
        line
    }
}

/// Reads one line as a row of the declared columns.
pub fn parse_line(cfg: &Config, line: &str) -> (r: CrushResult<Row>)
    ensures
        match r {
            Ok(row) => line_spec(cfg@, line@) == Ok::<RowView, ErrorView>(row@),
            Err(e) => line_spec(cfg@, line@) == Err::<RowView, ErrorView>(e@),
        },
{
    let pieces = split(strip_newline(line), cfg.separator);
    let ghost raw = split_spec(without_newline(line@), cfg.separator);
    assert(raw.len() == pieces@.len()) by {
        assert(views_of(pieces@).len() == pieces@.len());
    }
    let cells = match cfg.trim {
        Some(c) => trim_cells(pieces, c),
        None => pieces,
    };
    let ghost texts = cells_of(line@, cfg.separator, cfg.trim);
    assert(views_of(cells@) =~= texts) by {
        assert forall|i: int| 0 <= i < texts.len() implies views_of(cells@)[i] == texts[i] by {
            assert(views_of(pieces@)[i] == raw[i]);
        }
    }
    if cells.len() != cfg.columns.len() {
        return Err(CrushError::new(ErrorKind::Schema, "csv: Wrong number of columns in CSV file"));
    }
    let ghost columns = columns_of(cfg.columns@);
    let mut values: Vec<Value> = Vec::new();
    let mut i: usize = 0;
    assert(texts.take(0) =~= Seq::<Seq<char>>::empty());
    assert(values_of(values@) =~= Seq::<ValueView>::empty());
    while i < cells.len()
        invariant
            i <= cells@.len(),
            cells@.len() == cfg.columns@.len(),
            columns == columns_of(cfg.columns@),
            texts == views_of(cells@),
            texts == cells_of(line@, cfg.separator, cfg.trim),
            parse_cells(columns, texts.take(i as int)) == Ok::<RowView, ErrorView>(values_of(values@)),
        decreases cells@.len() - i,
    {
        let ghost done = texts.take(i as int);
        let ghost next = texts.take(i + 1);
        assert(next.drop_last() =~= done);
        assert(next.last() == cells@[i as int]@);
        assert(columns[i as int].cell_type == cfg.columns@[i as int].cell_type);
        match cfg.columns[i].cell_type.parse(cells[i]) {
            Ok(v) => {
                let ghost before = values_of(values@);
                values.push(v);
                assert(values_of(values@) =~= before.push(v@));
            },
            Err(e) => {
                proof {
                    assert(next.len() == i + 1);
                    assert(parse_spec(columns[next.len() - 1].cell_type, next.last()) == Err::<
                        ValueView,
                        ErrorView,
                    >(e@));
                    assert(parse_cells(columns, next) == Err::<RowView, ErrorView>(e@));
                    lemma_parse_cells_fails(columns, texts, i + 1);
                }
                return Err(e);
            },
        }
        i += 1;
    }
    assert(texts.take(cells@.len() as int) =~= texts);
    Ok(Row::new(values))
}

/// Once a prefix of the cells fails, the whole line fails with the same error.
proof fn lemma_parse_cells_fails(columns: Seq<ColumnView>, cells: Seq<Seq<char>>, k: int)
    requires
        0 <= k <= cells.len() <= columns.len(),
        parse_cells(columns, cells.take(k)) is Err,
    ensures
        parse_cells(columns, cells) == parse_cells(columns, cells.take(k)),
    decreases cells.len() - k,
{
    if k == cells.len() {
        assert(cells.take(k) =~= cells);
    } else {
        let next = cells.take(k + 1);
        assert(next.drop_last() =~= cells.take(k));
        lemma_parse_cells_fails(columns, cells, k + 1);
    }
}

/// The values read from cells are as many as the cells, and each has the type
/// of its column.
proof fn lemma_parse_cells_typed(columns: Seq<ColumnView>, cells: Seq<Seq<char>>)
    requires
        cells.len() <= columns.len(),
    ensures
        parse_cells(columns, cells) matches Ok(values) ==> {
            &&& values.len() == cells.len()
            &&& forall|i: int|
                0 <= i < values.len() ==> (#[trigger] values[i]).value_type()
                    == columns[i].cell_type
        },
    decreases cells.len(),
{
    if cells.len() > 0 {
        lemma_parse_cells_typed(columns, cells.drop_last());
        lemma_parse_gives_type(columns[cells.len() - 1].cell_type, cells.last());
    }
}

/// Every row that is read from a line conforms to the declared columns, so
/// that every row that a run sends fits the schema of its output.
pub proof fn lemma_row_conforms(cfg: ConfigView, line: Seq<char>)
    ensures
        line_spec(cfg, line) matches Ok(row) ==> conforms(cfg.columns, row),
{
    let cells = cells_of(line, cfg.separator, cfg.trim);
    if cells.len() == cfg.columns.len() {
        lemma_parse_cells_typed(cfg.columns, cells);
    }
}

/// Reads the lines of the input and sends their rows to `output`, until the
/// input is exhausted or the output takes no more. A run that finishes closes
/// the output, and a run that fails ends it with the error.
pub fn run(cfg: &mut Config, output: &mut Stream, printer: &mut Printer) -> (r: CrushResult<Progress>)
    ensures
        ({
            let end = run_spec(old(cfg)@, old(output)@, old(printer)@);
            &&& final(cfg)@ == end.config
            &&& final(output)@ == end.output
            &&& final(printer)@ == end.printer
            &&& match r {
                Ok(p) => end.end == Ok::<ProgressView, ErrorView>(p@),
                Err(e) => end.end == Err::<ProgressView, ErrorView>(e@),
            }
        }),
{
    loop
        invariant
            run_spec(cfg@, output@, printer@) == run_spec(old(cfg)@, old(output)@, old(printer)@),
        decreases cfg@.input.lines.len() - cfg@.input.next,
    {
        // The line is borrowed from the input, which is advanced only below.
        let row = {
            let line = cfg.input.peek_line();
            if line.is_empty() {
                output.close();
                return Ok(Progress::Finished);
            }
            if cfg.skip_head > 0 {
                None
            } else {
                Some(parse_line(cfg, line))
            }
        };
        match row {
            None => {
                cfg.skip_head = cfg.skip_head - 1;
            },
            Some(Err(e)) => {
                if e.kind == ErrorKind::Schema {
                    printer.error(e.message.as_str());
                } else {
                    printer.job_error(e);
                }
            },
            Some(Ok(row)) => {
                match output.send(row) {
                    Err(e) => {
                        output.fail(e.duplicate());
                        return Err(e);
                    },
                    Ok(SendOutcome::Full(_)) => {
                        return Ok(Progress::Suspended);
                    },
                    Ok(SendOutcome::Sent) => {},
                }
            },
        }
        cfg.input.advance();
    }
}

/// Once a prefix of the arguments is refused, the call is refused with the
/// same error.
proof fn lemma_with_arguments_fails(arguments: Seq<ArgumentView>, host: Seq<FileView>, k: int)
    requires
        0 <= k <= arguments.len(),
        with_arguments(arguments.take(k), host) is Err,
    ensures
        with_arguments(arguments, host) == with_arguments(arguments.take(k), host),
    decreases arguments.len() - k,
{
    if k == arguments.len() {
        assert(arguments.take(k) =~= arguments);
    } else {
        let next = arguments.take(k + 1);
        assert(next.drop_last() =~= arguments.take(k));
        lemma_with_arguments_fails(arguments, host, k + 1);
    }
}

/// The character of a text that is one character of one byte.
fn one_byte_char(text: &str) -> (r: Option<char>)
    ensures
        r is Some <==> one_byte(text@),
        r matches Some(c) ==> c == text@[0],
{
    let chars = chars_of(text);
    if chars.len() == 1 {
        let c = char_at(&chars, 0);
        if (c as u32) < 128 {
            return Some(c);
        }
    }
    None
}

/// The column that the description `text` declares.
fn parse_column(text: &str) -> (r: CrushResult<ColumnType>)
    ensures
        ({
            let parts = split_spec(text@, ':');
            match r {
                Ok(c) => parts.len() == 2 && type_named(parts[1]) == Some(c@.cell_type) && c@.name
                    == parts[0],
                Err(e) => if parts.len() != 2 {
                    e@ == bad_column(text@)
                } else {
                    type_named(parts[1]) is None && e@ == unknown_type(parts[1])
                },
            }
        }),
{
    let parts = split(text, ':');
    assert(views_of(parts@).len() == parts@.len());
    if parts.len() != 2 {
        return Err(
            CrushError::with_detail(
                ErrorKind::Argument,
                "Expected a column description on the form name:type, got ",
                text,
            ),
        );
    }
    assert(views_of(parts@)[0] == parts@[0]@);
    assert(views_of(parts@)[1] == parts@[1]@);
    match ValueType::from(parts[1]) {
        Ok(t) => Ok(ColumnType::named(parts[0], t)),
        Err(e) => Err(e),
    }
}

/// The `Argument` error for the parameter `name` that was given a value of
/// another type than `expected`.
fn wrong_type_error(name: &str, expected: &ValueType) -> (e: CrushError)
    ensures
        e@ == wrong_type(name@, *expected),
{
    let mut message = "Parameter ".to_owned();
    message.append(name);
    message.append(" expects a value of type ");
    message.append(expected.name());
    assert(message@ =~= "Parameter "@ + name@ + " expects a value of type "@ + name_of_type(
        *expected,
    ));
    CrushError { kind: ErrorKind::Argument, message }
}

/// The number of lines to skip that the integer `n` asks for: its low bits,
/// as many as the machine's word has.
fn head_count(n: i128) -> (count: usize)
    ensures
        count == n as usize,
{
    #[verifier::truncate]
    (n as usize)
}

/// Reads the arguments of a call and finds the source of its lines.
///
/// `col=name:type` declares a column, `head=n` skips the first `n` lines,
/// `sep=c` sets the separator and `trim=c` the character to trim. A
/// positional argument names the file to read; without one, the lines come
/// from the value on `input`, which is taken.
pub fn parse(arguments: &Vec<Argument>, input: &mut ValueReceiver, files: &Vec<FileEntry>) -> (r:
    CrushResult<Config>)
    ensures
        final(input)@ == input_after(arguments_of(arguments@), old(input)@, files_of(files@)),
        match r {
            Ok(cfg) => config_spec(arguments_of(arguments@), old(input)@, files_of(files@)) == Ok::<
                ConfigView,
                ErrorView,
            >(cfg@),
            Err(e) => config_spec(arguments_of(arguments@), old(input)@, files_of(files@)) == Err::<
                ConfigView,
                ErrorView,
            >(e@),
        },
{
    let mut separator: char = ',';
    let mut columns: Vec<ColumnType> = Vec::new();
    let mut skip_head: usize = 0;
    let mut trim: Option<char> = None;
    let mut operands: Vec<String> = Vec::new();

    let ghost args = arguments_of(arguments@);
    let ghost host = files_of(files@);
    let mut i: usize = 0;
    assert(args.take(0) =~= Seq::<ArgumentView>::empty());
    assert(columns_of(columns@) =~= Seq::<ColumnView>::empty());
    assert(texts_of(operands@) =~= Seq::<Seq<char>>::empty());
    while i < arguments.len()
        invariant
            i <= arguments@.len(),
            args == arguments_of(arguments@),
            host == files_of(files@),
            *input == *old(input),
            with_arguments(args.take(i as int), host) == Ok::<Settings, ErrorView>(
                Settings {
                    separator,
                    columns: columns_of(columns@),
                    skip_head,
                    trim,
                    files: texts_of(operands@),
                },
            ),
        decreases arguments@.len() - i,
    {
        let ghost next = args.take(i + 1);
        assert(next.drop_last() =~= args.take(i as int));
        assert(next.last() == arguments@[i as int]@);
        let ghost before = Settings {
            separator,
            columns: columns_of(columns@),
            skip_head,
            trim,
            files: texts_of(operands@),
        };
        let arg = &arguments[i];
        let step: CrushResult<()> = match &arg.name {
            None => {
                let ghost earlier = texts_of(operands@);
                match &arg.value {
                    Value::Text(s) => {
                        operands.push(s.clone());
                        assert(texts_of(operands@) =~= earlier + seq![s@]);
                    },
                    Value::File(p) => {
                        operands.push(p.clone());
                        assert(texts_of(operands@) =~= earlier + seq![p@]);
                    },
                    Value::Glob(g) => {
                        glob_files(g, files, &mut operands);
                    },
                    _ => {
                        assert(earlier + Seq::<Seq<char>>::empty() =~= earlier);
                    },
                }
                Ok(())
            },
            Some(name) => {
                let name = name.as_str();
                if text_eq(name, "col") {
                    match &arg.value {
                        Value::Text(text) => match parse_column(text.as_str()) {
                            Ok(c) => {
                                let ghost earlier = columns_of(columns@);
                                columns.push(c);
                                assert(columns_of(columns@) =~= earlier.push(c@));
                                Ok(())
                            },
                            Err(e) => Err(e),
                        },
                        _ => Err(wrong_type_error(name, &ValueType::Text)),
                    }
                } else if text_eq(name, "sep") {
                    match &arg.value {
                        Value::Text(text) => match one_byte_char(text.as_str()) {
                            Some(c) => {
                                separator = c;
                                Ok(())
                            },
                            None => Err(
                                CrushError::new(
                                    ErrorKind::Argument,
                                    "Separator must be exactly one character long",
                                ),
                            ),
                        },
                        _ => Err(wrong_type_error(name, &ValueType::Text)),
                    }
                } else if text_eq(name, "trim") {
                    match &arg.value {
                        Value::Text(text) => match one_byte_char(text.as_str()) {
                            Some(c) => {
                                trim = Some(c);
                                Ok(())
                            },
                            None => Err(
                                CrushError::new(ErrorKind::Argument, "Only one character can be trimmed"),
                            ),
                        },
                        _ => Err(wrong_type_error(name, &ValueType::Text)),
                    }
                } else if text_eq(name, "head") {
                    match &arg.value {
                        Value::Integer(n) => {
                            skip_head = head_count(*n);
                            Ok(())
                        },
                        _ => Err(wrong_type_error(name, &ValueType::Integer)),
                    }
                } else {
                    Err(CrushError::with_detail(ErrorKind::Argument, "Unknown parameter ", name))
                }
            },
        };
        match step {
            Ok(_) => {
                assert(with_argument(before, next.last(), host) == Ok::<Settings, ErrorView>(
                    Settings {
                        separator,
                        columns: columns_of(columns@),
                        skip_head,
                        trim,
                        files: texts_of(operands@),
                    },
                ));
            },
            Err(e) => {
                proof {
                    assert(with_argument(before, next.last(), host) == Err::<Settings, ErrorView>(e@));
                    lemma_with_arguments_fails(args, host, i + 1);
                }
                return Err(e);
            },
        }
        i += 1;
    }
    assert(args.take(arguments@.len() as int) =~= args);

    let reader = if operands.len() == 0 {
        match input.recv() {
            Ok(Value::BinaryReader(b)) => b,
            Ok(_) => {
                return Err(
                    CrushError::new(
                        ErrorKind::Argument,
                        "Expected either a file to read or binary pipe input",
                    ),
                );
            },
            Err(e) => {
                return Err(e);
            },
        }
    } else if operands.len() == 1 {
        match open_file(files, operands[0].as_str()) {
            Ok(b) => b,
            Err(e) => {
                return Err(e);
            },
        }
    } else {
        return Err(CrushError::new(ErrorKind::Argument, "Expected a file name"));
    };
    Ok(Config { separator, columns, skip_head, trim, input: reader })
}

/// A run and the configuration that it has reached.
#[derive(Debug, PartialEq, Eq)]
pub struct Job {
    /// The configuration, with its input at the first line that is unread.
    pub config: Config,
    /// How the run ended.
    pub progress: Progress,
}

impl View for Job {
    type V = JobView;

    open spec fn view(&self) -> JobView {
        JobView { config: self.config@, progress: self.progress@ }
    }
}

/// Performs the command: reads the arguments, binds the output to the
/// declared columns and runs the lines through. A failure on the way ends the
/// output with the error, so that the consumer is not left waiting.
///
/// A job that comes back suspended found the output full. Its configuration
/// holds the rest of the input: hand it to `run` once the consumer has made
/// room.
pub fn perform(context: &mut ExecutionContext) -> (r: CrushResult<Job>)
    ensures
        final(context)@ == perform_spec(old(context)@).0,
        match r {
            Ok(job) => perform_spec(old(context)@).1 == Ok::<JobView, ErrorView>(job@),
            Err(e) => perform_spec(old(context)@).1 == Err::<JobView, ErrorView>(e@),
        },
{
    let mut cfg = match parse(&context.arguments, &mut context.input, &context.files) {
        Ok(cfg) => cfg,
        Err(e) => {
            context.output.stream.fail(e.duplicate());
            return Err(e);
        },
    };
    let schema = match Schema::new(clone_columns(&cfg.columns)) {
        Ok(schema) => schema,
        Err(e) => {
            context.output.stream.fail(e.duplicate());
            return Err(e);
        },
    };
    match context.output.initialize(schema) {
        Ok(_) => {},
        Err(e) => {
            context.output.stream.fail(e.duplicate());
            return Err(e);
        },
    }
    match run(&mut cfg, &mut context.output.stream, &mut context.printer) {
        Ok(progress) => Ok(Job { config: cfg, progress }),
        Err(e) => Err(e),
    }
}

} // verus!
