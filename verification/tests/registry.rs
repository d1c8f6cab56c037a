use crush::command::{same_path, Command, Handler, OutputType};
use crush::commands::csv_command;
use crush::context::{Argument, ExecutionContext, ValueReceiver, ValueSender};
use crush::errors::ErrorKind;
use crush::library::types::glob::full;
use crush::library::{call_command, declare, resume, Continuation};
use crush::printer::Printer;
use crush::scope::{resolve, Scope};
use crush::stream::Received;
use crush::table::Row;
use crush::value::{BinaryReader, Value, ValueType};

fn command(path: Vec<&'static str>, handler: Handler) -> Command {
    Command {
        path,
        handler,
        mutates_receiver: false,
        signature: "sig",
        short_help: "help",
        long_help: Some("more help"),
        output: OutputType::Unknown,
    }
}

#[test]
fn builtins_are_registered_and_the_root_is_frozen() {
    let mut root = Scope::new();
    assert!(!root.is_readonly());
    declare(&mut root).unwrap();
    assert!(root.is_readonly());
    assert_eq!(root.len(), 5);
    for (name, handler) in [
        ("new", Handler::GlobNew),
        ("match", Handler::GlobMatch),
        ("not_match", Handler::GlobNotMatch),
        ("files", Handler::GlobFiles),
    ] {
        assert_eq!(root.lookup(&full(name)).unwrap().handler, handler);
    }
    let csv = root.lookup(&vec!["global", "input", "csv"]).unwrap();
    assert_eq!(csv, &csv_command());
    assert_eq!(csv.output, OutputType::Unknown);
}

#[test]
fn registration_stops_at_a_conflict_and_leaves_the_root_unfrozen() {
    let mut root = Scope::new();
    root.declare(command(full("match"), Handler::Csv)).unwrap();
    let err = declare(&mut root).unwrap_err();
    assert_eq!(err.kind, ErrorKind::Argument);
    assert_eq!(err.message, "A different command is declared under this name");
    assert!(!root.is_readonly());
    // What came before the conflict is registered, what came after is not.
    assert_eq!(root.len(), 2);
    assert!(root.lookup(&full("new")).is_ok());
    assert!(root.lookup(&full("files")).is_err());
    assert_eq!(root.lookup(&full("match")).unwrap().handler, Handler::Csv);
}

#[test]
fn same_definition_can_be_declared_again() {
    let mut root = Scope::new();
    root.declare(command(vec!["a", "b"], Handler::Csv)).unwrap();
    root.declare(command(vec!["a", "b"], Handler::Csv)).unwrap();
    assert_eq!(root.len(), 1);
    // Registering the built-in commands twice is the same as once.
    let mut root = Scope::new();
    root.declare_all(crush::library::types::glob::methods().commands()).unwrap();
    assert_eq!(root.len(), 4);
    declare(&mut root).unwrap();
    assert_eq!(root.len(), 5);
}

#[test]
fn different_definition_under_a_taken_path_is_refused() {
    let mut root = Scope::new();
    root.declare(command(vec!["a", "b"], Handler::Csv)).unwrap();
    let mut other = command(vec!["a", "b"], Handler::Csv);
    other.long_help = None;
    assert!(root.declare(other).is_err());
    let mut other = command(vec!["a", "b"], Handler::Csv);
    other.output = OutputType::Known(ValueType::Text);
    assert!(root.declare(other).is_err());
    let mut other = command(vec!["a", "b"], Handler::Csv);
    other.mutates_receiver = true;
    assert!(root.declare(other).is_err());
    assert!(root.declare(command(vec!["a", "b"], Handler::GlobNew)).is_err());
    assert_eq!(root.len(), 1);
    assert_eq!(root.lookup(&vec!["a", "b"]).unwrap(), &command(vec!["a", "b"], Handler::Csv));
    // Another path is free.
    root.declare(command(vec!["a"], Handler::GlobNew)).unwrap();
    root.declare(command(vec!["a", "b", "c"], Handler::GlobNew)).unwrap();
    assert_eq!(root.len(), 3);
}

#[test]
fn unknown_command() {
    let root = Scope::new();
    let err = root.lookup(&vec!["nothing"]).unwrap_err();
    assert_eq!(err.kind, ErrorKind::CommandNotFound);
    assert_eq!(err.message, "Unknown command");
    assert_eq!(resolve(&Vec::new(), &root, &vec!["nothing"]).unwrap_err().kind, ErrorKind::CommandNotFound);
}

#[test]
fn inner_scopes_shadow_outer_ones() {
    let mut global = Scope::new();
    global.declare(command(vec!["f"], Handler::GlobNew)).unwrap();
    global.declare(command(vec!["g"], Handler::GlobNew)).unwrap();
    global.readonly();
    let mut outer = Scope::new();
    outer.declare(command(vec!["f"], Handler::GlobMatch)).unwrap();
    outer.declare(command(vec!["h"], Handler::GlobMatch)).unwrap();
    let mut inner = Scope::new();
    inner.declare(command(vec!["f"], Handler::GlobFiles)).unwrap();
    let scopes = vec![inner, outer];
    assert_eq!(resolve(&scopes, &global, &vec!["f"]).unwrap().handler, Handler::GlobFiles);
    assert_eq!(resolve(&scopes, &global, &vec!["h"]).unwrap().handler, Handler::GlobMatch);
    assert_eq!(resolve(&scopes, &global, &vec!["g"]).unwrap().handler, Handler::GlobNew);
    assert!(resolve(&scopes, &global, &vec!["i"]).is_err());
}

#[test]
fn paths_are_compared_segment_by_segment() {
    assert!(same_path(&vec!["a", "b"], &vec!["a", "b"]));
    assert!(!same_path(&vec!["a", "b"], &vec!["a"]));
    assert!(!same_path(&vec!["a", "b"], &vec!["a", "c"]));
    assert!(!same_path(&vec!["ab"], &vec!["a", "b"]));
    assert!(same_path(&Vec::new(), &Vec::new()));
}

fn csv_context(capacity: usize) -> ExecutionContext {
    let lines = vec!["1\n".to_string(), "2\n".to_string(), "3\n".to_string()];
    ExecutionContext {
        arguments: vec![Argument::named("col", Value::Text("n:integer".to_string()))],
        this: None,
        input: ValueReceiver::new(Some(Value::BinaryReader(BinaryReader::new(lines)))),
        output: ValueSender::new(capacity),
        files: Vec::new(),
        printer: Printer::new(),
    }
}

#[test]
fn command_is_called_by_its_path() {
    let mut root = Scope::new();
    declare(&mut root).unwrap();
    let mut ctx = csv_context(8);
    let k = call_command(&Vec::new(), &root, &vec!["global", "input", "csv"], &mut ctx).unwrap();
    assert_eq!(k, Continuation::Done);
    assert_eq!(ctx.output.stream.len(), 3);

    let mut ctx = csv_context(8);
    let err = call_command(&Vec::new(), &root, &vec!["global", "input", "tsv"], &mut ctx).unwrap_err();
    assert_eq!(err.kind, ErrorKind::CommandNotFound);
    assert_eq!(ctx.output.stream.len(), 0);
    assert!(ctx.input.value.is_some());
}

#[test]
fn suspended_command_is_resumed() {
    let mut root = Scope::new();
    declare(&mut root).unwrap();
    let mut ctx = csv_context(1);
    let mut k = call_command(&Vec::new(), &root, &vec!["global", "input", "csv"], &mut ctx).unwrap();
    let mut seen = Vec::new();
    while k != Continuation::Done {
        match ctx.output.stream.recv().unwrap() {
            Received::Row(row) => seen.push(row),
            other => panic!("unexpected {:?}", other),
        }
        k = resume(k, &mut ctx).unwrap();
    }
    assert_eq!(resume(Continuation::Done, &mut ctx).unwrap(), Continuation::Done);
    loop {
        match ctx.output.stream.recv().unwrap() {
            Received::Row(row) => seen.push(row),
            Received::EndOfData => break,
            Received::Empty => panic!("closed stream cannot be empty"),
        }
    }
    assert_eq!(
        seen,
        vec![
            Row::new(vec![Value::Integer(1)]),
            Row::new(vec![Value::Integer(2)]),
            Row::new(vec![Value::Integer(3)])
        ]
    );
}
