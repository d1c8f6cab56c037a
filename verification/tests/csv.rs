use crush::commands::csv::{parse, parse_line, perform, run, Config, Progress};
use crush::context::{Argument, ExecutionContext, FileEntry, ValueReceiver, ValueSender};
use crush::errors::ErrorKind;
use crush::glob::Glob;
use crush::printer::{Diagnostic, Printer};
use crush::stream::{Received, Stream};
use crush::table::{ColumnType, Row, Schema};
use crush::value::{BinaryReader, Value, ValueType};

fn lines(text: &[&str]) -> Vec<String> {
    text.iter().map(|l| l.to_string()).collect()
}

fn text(s: &str) -> Value {
    Value::Text(s.to_string())
}

fn context(arguments: Vec<Argument>, input: Option<Value>, capacity: usize) -> ExecutionContext {
    ExecutionContext {
        arguments,
        this: None,
        input: ValueReceiver::new(input),
        output: ValueSender::new(capacity),
        files: Vec::new(),
        printer: Printer::new(),
    }
}

fn people(head: i128, input: &[&str], capacity: usize) -> ExecutionContext {
    context(
        vec![
            Argument::named("col", text("name:string")),
            Argument::named("col", text("age:integer")),
            Argument::named("sep", text(",")),
            Argument::named("head", Value::Integer(head)),
        ],
        Some(Value::BinaryReader(BinaryReader::new(lines(input)))),
        capacity,
    )
}

fn drain(stream: &mut Stream) -> Vec<Row> {
    let mut rows = Vec::new();
    loop {
        match stream.recv().unwrap() {
            Received::Row(row) => rows.push(row),
            Received::EndOfData => return rows,
            Received::Empty => panic!("the producer has not closed the stream"),
        }
    }
}

fn person(name: &str, age: i128) -> Row {
    Row::new(vec![text(name), Value::Integer(age)])
}

#[test]
fn one_good_line_and_one_bad_line() {
    let mut ctx = people(0, &["alice,30\n", "bob,not-a-number\n"], 8);
    let job = perform(&mut ctx).unwrap();
    assert_eq!(job.progress, Progress::Finished);
    assert_eq!(drain(&mut ctx.output.stream), vec![person("alice", 30)]);
    assert_eq!(ctx.printer.reports.len(), 1);
    match &ctx.printer.reports[0] {
        Diagnostic::Error(e) => {
            assert_eq!(e.kind, ErrorKind::Parse);
            assert_eq!(e.message, "Invalid integer: not-a-number");
        }
        Diagnostic::Message(m) => panic!("unexpected message {}", m),
    }
}

#[test]
fn head_skips_the_first_line() {
    let mut ctx = people(1, &["name,age\n", "alice,30\n", "bob,not-a-number\n"], 8);
    let job = perform(&mut ctx).unwrap();
    assert_eq!(job.progress, Progress::Finished);
    assert_eq!(drain(&mut ctx.output.stream), vec![person("alice", 30)]);
    assert_eq!(ctx.printer.reports.len(), 1);
}

#[test]
fn head_skips_a_line_that_would_have_been_a_row() {
    let mut ctx = people(1, &["alice,30\n", "bob,41\n"], 8);
    perform(&mut ctx).unwrap();
    assert_eq!(drain(&mut ctx.output.stream), vec![person("bob", 41)]);
    assert!(ctx.printer.reports.is_empty());
}

#[test]
fn unknown_parameter_is_refused_before_any_output() {
    let mut ctx = context(
        vec![
            Argument::named("col", text("name:string")),
            Argument::named("colour", text("red")),
        ],
        Some(Value::BinaryReader(BinaryReader::new(lines(&["alice\n"])))),
        8,
    );
    let err = perform(&mut ctx).unwrap_err();
    assert_eq!(err.kind, ErrorKind::Argument);
    assert_eq!(err.message, "Unknown parameter colour");
    assert!(err.message.contains("colour"));
    assert!(ctx.output.value.is_none());
    assert!(ctx.output.stream.schema().is_none());
    assert_eq!(ctx.output.stream.len(), 0);
    assert!(ctx.printer.reports.is_empty());
    // The input was not touched either.
    assert!(ctx.input.value.is_some());
    // The consumer is not left waiting: it finds the error.
    let found = ctx.output.stream.recv().unwrap_err();
    assert_eq!(found.message, "Unknown parameter colour");
}

#[test]
fn known_parameter_with_a_value_of_the_wrong_type_says_so() {
    let mut input = ValueReceiver::new(Some(Value::BinaryReader(BinaryReader::new(Vec::new()))));
    let cases = [
        ("head", text("1"), "Parameter head expects a value of type integer"),
        ("head", Value::Bool(true), "Parameter head expects a value of type integer"),
        ("sep", Value::Integer(3), "Parameter sep expects a value of type string"),
        ("trim", Value::Char('x'), "Parameter trim expects a value of type string"),
        ("col", Value::Bool(true), "Parameter col expects a value of type string"),
    ];
    for (name, value, message) in cases {
        let err = parse(&vec![Argument::named(name, value)], &mut input, &Vec::new()).unwrap_err();
        assert_eq!(err.kind, ErrorKind::Argument);
        assert_eq!(err.message, message);
    }
    // The input is left alone, and a name that is no parameter is still unknown.
    assert!(input.value.is_some());
    let err = parse(&vec![Argument::named("heads", Value::Integer(1))], &mut input, &Vec::new())
        .unwrap_err();
    assert_eq!(err.message, "Unknown parameter heads");
}

#[test]
fn defaults_without_arguments() {
    let mut input = ValueReceiver::new(Some(Value::BinaryReader(BinaryReader::new(lines(&["a\n"])))));
    let cfg = parse(&Vec::new(), &mut input, &Vec::new()).unwrap();
    assert_eq!(cfg.separator, ',');
    assert!(cfg.columns.is_empty());
    assert_eq!(cfg.skip_head, 0);
    assert_eq!(cfg.trim, None);
    assert_eq!(cfg.input, BinaryReader::new(lines(&["a\n"])));
    assert!(input.value.is_none());
}

#[test]
fn arguments_set_every_field() {
    let mut input = ValueReceiver::new(Some(Value::BinaryReader(BinaryReader::new(Vec::new()))));
    let cfg = parse(
        &vec![
            Argument::named("sep", text(";")),
            Argument::named("trim", text("\"")),
            Argument::named("head", Value::Integer(2)),
            Argument::named("col", text("a:string")),
            Argument::named("col", text("b:bool")),
        ],
        &mut input,
        &Vec::new(),
    )
    .unwrap();
    assert_eq!(cfg.separator, ';');
    assert_eq!(cfg.trim, Some('"'));
    assert_eq!(cfg.skip_head, 2);
    assert_eq!(
        cfg.columns,
        vec![ColumnType::named("a", ValueType::Text), ColumnType::named("b", ValueType::Bool)]
    );
}

#[test]
fn later_argument_overrides_earlier() {
    let mut input = ValueReceiver::new(Some(Value::BinaryReader(BinaryReader::new(Vec::new()))));
    let cfg = parse(
        &vec![Argument::named("sep", text(";")), Argument::named("sep", text("|"))],
        &mut input,
        &Vec::new(),
    )
    .unwrap();
    assert_eq!(cfg.separator, '|');
}

#[test]
fn negative_head_keeps_its_low_bits() {
    let mut input = ValueReceiver::new(Some(Value::BinaryReader(BinaryReader::new(Vec::new()))));
    let cfg = parse(&vec![Argument::named("head", Value::Integer(-1))], &mut input, &Vec::new())
        .unwrap();
    assert_eq!(cfg.skip_head, usize::MAX);
}

#[test]
fn column_description_needs_one_colon() {
    let mut input = ValueReceiver::new(None);
    let err = parse(&vec![Argument::named("col", text("name"))], &mut input, &Vec::new()).unwrap_err();
    assert_eq!(err.kind, ErrorKind::Argument);
    assert_eq!(err.message, "Expected a column description on the form name:type, got name");
    let err = parse(&vec![Argument::named("col", text("a:b:c"))], &mut input, &Vec::new()).unwrap_err();
    assert_eq!(err.message, "Expected a column description on the form name:type, got a:b:c");
}

#[test]
fn column_type_must_be_known() {
    let mut input = ValueReceiver::new(None);
    let err = parse(&vec![Argument::named("col", text("name:wombat"))], &mut input, &Vec::new())
        .unwrap_err();
    assert_eq!(err.kind, ErrorKind::Type);
    assert_eq!(err.message, "Unknown type wombat");
}

#[test]
fn separator_must_be_one_byte() {
    let mut input = ValueReceiver::new(None);
    for bad in ["", ",,", "\u{e9}"] {
        let err = parse(&vec![Argument::named("sep", text(bad))], &mut input, &Vec::new()).unwrap_err();
        assert_eq!(err.kind, ErrorKind::Argument);
        assert_eq!(err.message, "Separator must be exactly one character long");
    }
}

#[test]
fn trim_must_be_one_byte() {
    let mut input = ValueReceiver::new(None);
    for bad in ["", "ab", "\u{e9}"] {
        let err = parse(&vec![Argument::named("trim", text(bad))], &mut input, &Vec::new()).unwrap_err();
        assert_eq!(err.kind, ErrorKind::Argument);
        assert_eq!(err.message, "Only one character can be trimmed");
    }
}

#[test]
fn first_refused_argument_decides() {
    let mut input = ValueReceiver::new(None);
    let err = parse(
        &vec![Argument::named("sep", text("ab")), Argument::named("nope", text("x"))],
        &mut input,
        &Vec::new(),
    )
    .unwrap_err();
    assert_eq!(err.message, "Separator must be exactly one character long");
}

#[test]
fn input_must_be_a_source_of_lines() {
    let mut input = ValueReceiver::new(Some(Value::Integer(3)));
    let err = parse(&Vec::new(), &mut input, &Vec::new()).unwrap_err();
    assert_eq!(err.kind, ErrorKind::Argument);
    assert_eq!(err.message, "Expected either a file to read or binary pipe input");
}

#[test]
fn missing_input_is_a_closed_stream() {
    let mut input = ValueReceiver::new(None);
    let err = parse(&Vec::new(), &mut input, &Vec::new()).unwrap_err();
    assert_eq!(err.kind, ErrorKind::Closed);
}

fn host() -> Vec<FileEntry> {
    vec![
        FileEntry { path: "a.csv".to_string(), lines: Some(lines(&["x,1\n"])) },
        FileEntry { path: "b.csv".to_string(), lines: Some(lines(&["y,2\n"])) },
        FileEntry { path: "locked.txt".to_string(), lines: None },
    ]
}

#[test]
fn file_operand_is_opened_and_input_is_left_alone() {
    let mut input = ValueReceiver::new(Some(Value::Integer(1)));
    let cfg = parse(&vec![Argument::unnamed(Value::File("b.csv".to_string()))], &mut input, &host())
        .unwrap();
    assert_eq!(cfg.input, BinaryReader::new(lines(&["y,2\n"])));
    assert_eq!(input.value, Some(Value::Integer(1)));
    let cfg = parse(&vec![Argument::unnamed(text("a.csv"))], &mut input, &host()).unwrap();
    assert_eq!(cfg.input, BinaryReader::new(lines(&["x,1\n"])));
}

#[test]
fn glob_operand_names_the_files_it_matches() {
    let mut input = ValueReceiver::new(None);
    let cfg = parse(&vec![Argument::unnamed(Value::Glob(Glob::new("b*")))], &mut input, &host())
        .unwrap();
    assert_eq!(cfg.input, BinaryReader::new(lines(&["y,2\n"])));
    let err = parse(&vec![Argument::unnamed(Value::Glob(Glob::new("*.csv")))], &mut input, &host())
        .unwrap_err();
    assert_eq!(err.message, "Expected a file name");
}

#[test]
fn more_than_one_file_is_refused() {
    let mut input = ValueReceiver::new(None);
    let err = parse(
        &vec![Argument::unnamed(text("a.csv")), Argument::unnamed(text("b.csv"))],
        &mut input,
        &host(),
    )
    .unwrap_err();
    assert_eq!(err.kind, ErrorKind::Argument);
    assert_eq!(err.message, "Expected a file name");
}

#[test]
fn positional_value_that_names_no_file_is_ignored() {
    let mut input = ValueReceiver::new(Some(Value::BinaryReader(BinaryReader::new(Vec::new()))));
    let cfg = parse(&vec![Argument::unnamed(Value::Integer(7))], &mut input, &host()).unwrap();
    assert_eq!(cfg.input, BinaryReader::new(Vec::new()));
}

#[test]
fn missing_file_is_an_io_error() {
    let mut input = ValueReceiver::new(None);
    let err = parse(&vec![Argument::unnamed(text("c.csv"))], &mut input, &host()).unwrap_err();
    assert_eq!(err.kind, ErrorKind::Io);
    assert_eq!(err.message, "No such file: c.csv");
}

#[test]
fn unreadable_file_is_an_io_error() {
    let mut input = ValueReceiver::new(None);
    let err = parse(&vec![Argument::unnamed(text("locked.txt"))], &mut input, &host()).unwrap_err();
    assert_eq!(err.kind, ErrorKind::Io);
    assert_eq!(err.message, "Cannot read file: locked.txt");
}

fn config(columns: Vec<ColumnType>, separator: char, trim: Option<char>) -> Config {
    Config { separator, columns, skip_head: 0, trim, input: BinaryReader::new(Vec::new()) }
}

fn two_columns() -> Vec<ColumnType> {
    vec![ColumnType::named("name", ValueType::Text), ColumnType::named("age", ValueType::Integer)]
}

#[test]
fn line_without_newline_is_read_whole() {
    let cfg = config(two_columns(), ',', None);
    assert_eq!(parse_line(&cfg, "bob,42").unwrap(), person("bob", 42));
    assert_eq!(parse_line(&cfg, "bob,42\n").unwrap(), person("bob", 42));
}

#[test]
fn cells_are_trimmed_at_both_ends_only() {
    let cfg = config(two_columns(), ',', Some('"'));
    assert_eq!(parse_line(&cfg, "\"\"al\"ice\",\"30\"\n").unwrap(), person("al\"ice", 30));
    let cfg = config(two_columns(), ',', Some(' '));
    assert_eq!(parse_line(&cfg, "  alice , 30\n").unwrap(), person("alice", 30));
    let cfg = config(two_columns(), ',', None);
    assert_eq!(parse_line(&cfg, " alice,30\n").unwrap(), person(" alice", 30));
}

#[test]
fn wrong_number_of_cells_is_a_schema_error() {
    let cfg = config(two_columns(), ',', None);
    for line in ["alice\n", "alice,30,x\n", "\n"] {
        let err = parse_line(&cfg, line).unwrap_err();
        assert_eq!(err.kind, ErrorKind::Schema);
        assert_eq!(err.message, "csv: Wrong number of columns in CSV file");
    }
}

#[test]
fn first_bad_cell_decides() {
    let cfg = config(
        vec![ColumnType::named("a", ValueType::Integer), ColumnType::named("b", ValueType::Bool)],
        ';',
        None,
    );
    let err = parse_line(&cfg, "x;y\n").unwrap_err();
    assert_eq!(err.kind, ErrorKind::Parse);
    assert_eq!(err.message, "Invalid integer: x");
    let err = parse_line(&cfg, "1;y\n").unwrap_err();
    assert_eq!(err.message, "Invalid bool: y");
    assert_eq!(
        parse_line(&cfg, "-7;true\n").unwrap(),
        Row::new(vec![Value::Integer(-7), Value::Bool(true)])
    );
}

#[test]
fn empty_cells_are_cells() {
    let cfg = config(
        vec![ColumnType::named("a", ValueType::Text), ColumnType::named("b", ValueType::Text)],
        ',',
        None,
    );
    assert_eq!(parse_line(&cfg, ",\n").unwrap(), Row::new(vec![text(""), text("")]));
}

#[test]
fn empty_line_ends_the_input() {
    let mut ctx = people(0, &["alice,30\n", "", "bob,41\n"], 8);
    let job = perform(&mut ctx).unwrap();
    assert_eq!(job.progress, Progress::Finished);
    assert_eq!(job.config.input.next, 1);
    assert_eq!(drain(&mut ctx.output.stream), vec![person("alice", 30)]);
}

#[test]
fn duplicate_column_names_are_refused() {
    let mut ctx = context(
        vec![Argument::named("col", text("a:string")), Argument::named("col", text("a:integer"))],
        Some(Value::BinaryReader(BinaryReader::new(lines(&["x,1\n"])))),
        8,
    );
    let err = perform(&mut ctx).unwrap_err();
    assert_eq!(err.kind, ErrorKind::Schema);
    assert_eq!(err.message, "Column names must be unique");
    assert!(ctx.output.stream.schema().is_none());
}

#[test]
fn output_is_bound_to_the_declared_columns() {
    let mut ctx = people(0, &[], 8);
    perform(&mut ctx).unwrap();
    assert_eq!(ctx.output.stream.schema(), Some(&Schema::new(two_columns()).unwrap()));
}

#[test]
fn output_that_was_used_is_refused() {
    let mut ctx = people(0, &["alice,30\n"], 8);
    ctx.output.send(Value::Integer(1)).unwrap();
    let err = perform(&mut ctx).unwrap_err();
    assert_eq!(err.kind, ErrorKind::AlreadyInitialized);
}

#[test]
fn full_output_suspends_and_nothing_is_lost() {
    let input = ["a,1\n", "b,2\n", "c,x\n", "d,4\n", "e,5\n"];
    let mut ctx = people(0, &input, 2);
    let mut job = perform(&mut ctx).unwrap();
    assert_eq!(job.progress, Progress::Suspended);
    assert_eq!(ctx.output.stream.len(), 2);
    // The malformed third line was reported; the fourth is still unread.
    assert_eq!(job.config.input.next, 3);
    assert_eq!(ctx.printer.reports.len(), 1);

    // Running again without room changes nothing.
    assert_eq!(
        run(&mut job.config, &mut ctx.output.stream, &mut ctx.printer).unwrap(),
        Progress::Suspended
    );
    assert_eq!(job.config.input.next, 3);
    assert_eq!(ctx.printer.reports.len(), 1);

    let mut received = Vec::new();
    loop {
        match ctx.output.stream.recv().unwrap() {
            Received::Row(row) => received.push(row),
            Received::Empty => {
                run(&mut job.config, &mut ctx.output.stream, &mut ctx.printer).unwrap();
            }
            Received::EndOfData => break,
        }
    }
    assert_eq!(received, vec![person("a", 1), person("b", 2), person("d", 4), person("e", 5)]);
    assert_eq!(ctx.printer.reports.len(), 1);
}

#[test]
fn closed_output_ends_the_run_with_an_error() {
    let mut ctx = people(0, &["alice,30\n", "bob,41\n"], 8);
    ctx.output.stream.hang_up();
    let err = perform(&mut ctx).unwrap_err();
    assert_eq!(err.kind, ErrorKind::Closed);
    assert_eq!(ctx.output.stream.len(), 0);
}

#[test]
fn run_on_a_stream_without_schema_fails() {
    let mut cfg = config(two_columns(), ',', None);
    cfg.input = BinaryReader::new(lines(&["alice,30\n"]));
    let mut stream = Stream::new(4);
    let mut printer = Printer::new();
    let err = run(&mut cfg, &mut stream, &mut printer).unwrap_err();
    assert_eq!(err.kind, ErrorKind::Schema);
    assert_eq!(cfg.input.next, 0);
}

#[test]
fn empty_input_ends_the_data_at_once() {
    let mut ctx = context(
        vec![Argument::named("col", text("name:string"))],
        Some(Value::BinaryReader(BinaryReader::new(Vec::new()))),
        8,
    );
    let job = perform(&mut ctx).unwrap();
    assert_eq!(job.progress, Progress::Finished);
    assert_eq!(
        ctx.output.stream.schema(),
        Some(&Schema::new(vec![ColumnType::named("name", ValueType::Text)]).unwrap())
    );
    assert!(ctx.printer.reports.is_empty());
    assert_eq!(ctx.output.stream.recv().unwrap(), Received::EndOfData);
}

#[test]
fn finished_run_has_closed_the_output() {
    let mut ctx = people(0, &["alice,30\n"], 8);
    perform(&mut ctx).unwrap();
    assert!(!ctx.output.stream.is_open());
    assert_eq!(ctx.output.stream.send(person("bob", 1)).unwrap_err().kind, ErrorKind::Closed);
    assert_eq!(ctx.output.stream.recv().unwrap(), Received::Row(person("alice", 30)));
    assert_eq!(ctx.output.stream.recv().unwrap(), Received::EndOfData);
}

#[test]
fn suspended_run_leaves_the_output_open() {
    let mut ctx = people(0, &["a,1\n", "b,2\n"], 1);
    let job = perform(&mut ctx).unwrap();
    assert_eq!(job.progress, Progress::Suspended);
    assert!(ctx.output.stream.is_open());
    assert_eq!(ctx.output.stream.recv().unwrap(), Received::Row(person("a", 1)));
    assert_eq!(ctx.output.stream.recv().unwrap(), Received::Empty);
}

#[test]
fn failed_run_ends_the_output_with_its_error() {
    let mut cfg = config(two_columns(), ',', None);
    cfg.input = BinaryReader::new(lines(&["alice,30\n"]));
    let mut stream = Stream::new(4);
    let mut printer = Printer::new();
    let err = run(&mut cfg, &mut stream, &mut printer).unwrap_err();
    assert_eq!(err.message, "Stream has no schema");
    assert!(!stream.is_open());
    assert_eq!(stream.recv().unwrap_err().message, "Stream has no schema");
}

#[test]
fn wrong_number_of_cells_is_reported_as_a_message() {
    let mut ctx = people(0, &["alice\n", "bob,x\n", "carol,7\n", "dave,1,2\n"], 8);
    perform(&mut ctx).unwrap();
    assert_eq!(drain(&mut ctx.output.stream), vec![person("carol", 7)]);
    assert_eq!(ctx.printer.reports.len(), 3);
    assert_eq!(
        ctx.printer.reports[0],
        Diagnostic::Message("csv: Wrong number of columns in CSV file".to_string())
    );
    match &ctx.printer.reports[1] {
        Diagnostic::Error(e) => assert_eq!(e.message, "Invalid integer: x"),
        Diagnostic::Message(m) => panic!("unexpected message {}", m),
    }
    assert_eq!(
        ctx.printer.reports[2],
        Diagnostic::Message("csv: Wrong number of columns in CSV file".to_string())
    );
}

#[test]
fn skipped_lines_are_counted_by_the_run() {
    // A reader that is handed over at its second line still has its head skipped.
    let mut cfg = config(two_columns(), ',', None);
    cfg.input = BinaryReader::new(lines(&["gone,0\n", "name,age\n", "alice,30\n", "bob,41\n"]));
    cfg.input.advance();
    cfg.skip_head = 1;
    let mut stream = Stream::new(8);
    stream.initialize(Schema::new(two_columns()).unwrap()).unwrap();
    let mut printer = Printer::new();
    assert_eq!(run(&mut cfg, &mut stream, &mut printer).unwrap(), Progress::Finished);
    assert_eq!(cfg.skip_head, 0);
    assert_eq!(drain(&mut stream), vec![person("alice", 30), person("bob", 41)]);
    assert!(printer.reports.is_empty());
}

#[test]
fn head_longer_than_the_input_skips_all_of_it() {
    let mut ctx = people(5, &["a,1\n", "b,2\n"], 8);
    let job = perform(&mut ctx).unwrap();
    assert_eq!(job.progress, Progress::Finished);
    assert_eq!(job.config.skip_head, 3);
    assert_eq!(drain(&mut ctx.output.stream), Vec::new());
    assert!(ctx.printer.reports.is_empty());
}

#[test]
fn head_is_skipped_once_across_a_suspension() {
    let mut ctx = people(2, &["x\n", "y\n", "a,1\n", "b,2\n", "c,3\n"], 1);
    let mut job = perform(&mut ctx).unwrap();
    assert_eq!(job.progress, Progress::Suspended);
    assert_eq!(job.config.skip_head, 0);
    let mut received = Vec::new();
    loop {
        match ctx.output.stream.recv().unwrap() {
            Received::Row(row) => received.push(row),
            Received::Empty => {
                run(&mut job.config, &mut ctx.output.stream, &mut ctx.printer).unwrap();
            }
            Received::EndOfData => break,
        }
    }
    assert_eq!(received, vec![person("a", 1), person("b", 2), person("c", 3)]);
    assert!(ctx.printer.reports.is_empty());
}
