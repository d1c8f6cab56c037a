use crush::command::{Handler, OutputType};
use crush::context::{Argument, ExecutionContext, FileEntry, ValueReceiver, ValueSender};
use crush::errors::ErrorKind;
use crush::glob::Glob;
use crush::library::types::glob;
use crush::library::types::glob::{files, full, methods, new, not_match};
use crush::library::types::{find_method, methods as methods_of};
use crush::library::{call_method, invoke, Continuation};
use crush::printer::Printer;
use crush::value::{Value, ValueType};

fn text(s: &str) -> Value {
    Value::Text(s.to_string())
}

fn context(this: Option<Value>, arguments: Vec<Argument>) -> ExecutionContext {
    ExecutionContext {
        arguments,
        this,
        input: ValueReceiver::new(None),
        output: ValueSender::new(4),
        files: vec![
            FileEntry { path: "report.txt".to_string(), lines: None },
            FileEntry { path: "report.md".to_string(), lines: None },
            FileEntry { path: "notes.txt".to_string(), lines: None },
        ],
        printer: Printer::new(),
    }
}

fn receiver(pattern: &str) -> Option<Value> {
    Some(Value::Glob(Glob::new(pattern)))
}

#[test]
fn match_method_on_a_glob_value() {
    let mut ctx = context(receiver("*.txt"), vec![Argument::unnamed(text("report.txt"))]);
    assert_eq!(call_method("match", &mut ctx).unwrap(), Continuation::Done);
    assert_eq!(ctx.output.value, Some(Value::Bool(true)));

    let mut ctx = context(receiver("*.txt"), vec![Argument::unnamed(text("report.md"))]);
    assert_eq!(call_method("match", &mut ctx).unwrap(), Continuation::Done);
    assert_eq!(ctx.output.value, Some(Value::Bool(false)));
}

#[test]
fn not_match_is_the_opposite() {
    let mut ctx = context(receiver("*.txt"), vec![Argument::unnamed(text("report.txt"))]);
    not_match(&mut ctx).unwrap();
    assert_eq!(ctx.output.value, Some(Value::Bool(false)));
    let mut ctx = context(receiver("*.txt"), vec![Argument::unnamed(text("report.md"))]);
    call_method("not_match", &mut ctx).unwrap();
    assert_eq!(ctx.output.value, Some(Value::Bool(true)));
}

#[test]
fn new_makes_a_glob_of_its_argument() {
    let mut ctx = context(None, vec![Argument::unnamed(text("a?c"))]);
    new(&mut ctx).unwrap();
    assert_eq!(ctx.output.value, Some(Value::Glob(Glob::new("a?c"))));
}

#[test]
fn new_needs_a_text_argument() {
    let mut ctx = context(None, Vec::new());
    let err = new(&mut ctx).unwrap_err();
    assert_eq!(err.kind, ErrorKind::Argument);
    assert_eq!(err.message, "Missing argument");
    assert!(ctx.output.value.is_none());

    let mut ctx = context(None, vec![Argument::unnamed(Value::Integer(1))]);
    let err = new(&mut ctx).unwrap_err();
    assert_eq!(err.kind, ErrorKind::Argument);
    assert_eq!(err.message, "Expected an argument of type string");
}

#[test]
fn match_needs_a_glob_receiver() {
    let mut ctx = context(Some(text("*.txt")), vec![Argument::unnamed(text("a.txt"))]);
    let err = glob::matches(&mut ctx).unwrap_err();
    assert_eq!(err.kind, ErrorKind::Argument);
    assert_eq!(err.message, "Expected a receiver of type glob");
    let mut ctx = context(None, vec![Argument::unnamed(text("a.txt"))]);
    assert_eq!(glob::matches(&mut ctx).unwrap_err().message, "Expected a receiver of type glob");
    let mut ctx = context(receiver("*"), Vec::new());
    assert_eq!(glob::matches(&mut ctx).unwrap_err().message, "Missing argument");
}

#[test]
fn second_send_is_refused() {
    let mut ctx = context(receiver("*"), vec![Argument::unnamed(text("x"))]);
    glob::matches(&mut ctx).unwrap();
    let err = glob::matches(&mut ctx).unwrap_err();
    assert_eq!(err.kind, ErrorKind::AlreadyInitialized);
    assert_eq!(ctx.output.value, Some(Value::Bool(true)));
}

#[test]
fn send_to_a_consumer_that_is_gone_is_refused() {
    let mut ctx = context(receiver("*"), vec![Argument::unnamed(text("x"))]);
    ctx.output.stream.hang_up();
    let err = glob::matches(&mut ctx).unwrap_err();
    assert_eq!(err.kind, ErrorKind::Closed);
    assert!(ctx.output.value.is_none());
}

#[test]
fn files_lists_the_files_that_match() {
    let mut ctx = context(receiver("*.txt"), Vec::new());
    files(&mut ctx).unwrap();
    assert_eq!(
        ctx.output.value,
        Some(Value::List(
            ValueType::File,
            vec![Value::File("report.txt".to_string()), Value::File("notes.txt".to_string())]
        ))
    );
    let mut ctx = context(receiver("*.rs"), Vec::new());
    call_method("files", &mut ctx).unwrap();
    assert_eq!(ctx.output.value, Some(Value::List(ValueType::File, Vec::new())));
}

#[test]
fn full_name_of_a_method() {
    assert_eq!(full("match"), vec!["global", "types", "glob", "match"]);
}

#[test]
fn method_table_of_globs() {
    let table = methods();
    assert_eq!(table.len(), 4);
    let listed = table.commands();
    let names: Vec<&str> = listed.iter().map(|c| c.path[3]).collect();
    assert_eq!(names, vec!["new", "match", "not_match", "files"]);
    let m = table.get("match").unwrap();
    assert_eq!(m.path, full("match"));
    assert_eq!(m.handler, Handler::GlobMatch);
    assert!(!m.mutates_receiver);
    assert_eq!(m.signature, "glob:match io:string");
    assert_eq!(m.short_help, "True if the io matches the pattern");
    assert_eq!(m.long_help, None);
    assert_eq!(m.output, OutputType::Known(ValueType::Bool));
    assert_eq!(table.get("new").unwrap().output, OutputType::Known(ValueType::Glob));
    assert_eq!(
        table.get("files").unwrap().output,
        OutputType::Known(ValueType::List(Box::new(ValueType::File)))
    );
    assert_eq!(table.get("not_match").unwrap().handler, Handler::GlobNotMatch);
    assert!(table.get("nope").is_none());
}

#[test]
fn declaring_a_method_twice() {
    let mut table = methods();
    // The same definition again changes nothing.
    table
        .declare(
            full("files"),
            Handler::GlobFiles,
            false,
            "glob:files",
            "Perform file matching of this glob",
            None,
            OutputType::Known(ValueType::List(Box::new(ValueType::File))),
        )
        .unwrap();
    assert_eq!(table.len(), 4);
    // Another definition under the same name is refused.
    let err = table
        .declare(
            full("files"),
            Handler::GlobNew,
            false,
            "glob:files",
            "Perform file matching of this glob",
            None,
            OutputType::Unknown,
        )
        .unwrap_err();
    assert_eq!(err.kind, ErrorKind::Argument);
    assert_eq!(err.message, "Conflicting declarations of files");
    assert_eq!(table.get("files").unwrap().handler, Handler::GlobFiles);
    let err = table
        .declare(Vec::new(), Handler::GlobNew, false, "", "", None, OutputType::Unknown)
        .unwrap_err();
    assert_eq!(err.message, "A command needs a name");
    assert_eq!(table.len(), 4);
}

#[test]
fn methods_are_found_by_the_type_of_the_receiver() {
    let g = Value::Glob(Glob::new("*"));
    assert_eq!(find_method(&g, "match").unwrap().handler, Handler::GlobMatch);
    let err = find_method(&g, "frobnicate").unwrap_err();
    assert_eq!(err.kind, ErrorKind::MethodNotFound);
    assert_eq!(err.message, "Unknown method frobnicate");
    let err = find_method(&Value::Integer(1), "match").unwrap_err();
    assert_eq!(err.kind, ErrorKind::MethodNotFound);
    assert_eq!(methods_of(&ValueType::Integer).len(), 0);
    assert_eq!(methods_of(&ValueType::Glob).len(), 4);
}

#[test]
fn method_call_without_receiver_finds_no_method() {
    let mut ctx = context(None, vec![Argument::unnamed(text("x"))]);
    let err = call_method("match", &mut ctx).unwrap_err();
    assert_eq!(err.kind, ErrorKind::MethodNotFound);
    assert!(ctx.output.value.is_none());
}

#[test]
fn invoke_runs_the_handler_of_the_command() {
    let g = Value::Glob(Glob::new("r*"));
    let m = find_method(&g, "files").unwrap();
    let mut ctx = context(Some(g), Vec::new());
    assert_eq!(invoke(&m, &mut ctx).unwrap(), Continuation::Done);
    assert_eq!(
        ctx.output.value,
        Some(Value::List(
            ValueType::File,
            vec![Value::File("report.txt".to_string()), Value::File("report.md".to_string())]
        ))
    );
}

#[test]
fn wildcard_matching() {
    let cases = [
        ("", "", true),
        ("", "a", false),
        ("*", "", true),
        ("*", "anything", true),
        ("?", "", false),
        ("?", "a", true),
        ("?", "ab", false),
        ("a*b", "ab", true),
        ("a*b", "aXYZb", true),
        ("a*b", "aXYZ", false),
        ("a*b*c", "abc", true),
        ("a*b*c", "aXbYc", true),
        ("a*b*c", "aXbYcZ", false),
        ("**", "x", true),
        ("*a", "banana", true),
        ("*a", "bananas", false),
        ("b?n*", "banana", true),
        ("abc", "abc", true),
        ("abc", "abd", false),
        ("abc", "ab", false),
        ("*.txt", "report.txt", true),
        ("*.txt", "report.md", false),
        ("*.txt", ".txt", true),
        ("h\u{e9}?lo", "h\u{e9}llo", true),
    ];
    for (pattern, text, expected) in cases {
        assert_eq!(Glob::new(pattern).matches(text), expected, "{} on {}", pattern, text);
    }
}

#[test]
fn glob_display_is_its_pattern() {
    assert_eq!(Glob::new("a*b").to_text(), "a*b");
    assert_eq!(Glob::new("a*b").duplicate(), Glob::new("a*b"));
}
