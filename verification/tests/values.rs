use crush::context::{open_file, Argument, ArgumentVector, FileEntry, This, ValueReceiver};
use crush::errors::{argument_error, CrushError, ErrorKind};
use crush::glob::Glob;
use crush::number::{integer_to_string, parse_integer};
use crush::table::{ColumnType, Row, Schema};
use crush::text::{char_at, chars_of, split, text_eq, trim_matches};
use crush::value::{BinaryReader, Value, ValueType};

fn text(s: &str) -> Value {
    Value::Text(s.to_string())
}

#[test]
fn type_names() {
    let named = [
        ("empty", ValueType::Empty),
        ("string", ValueType::Text),
        ("integer", ValueType::Integer),
        ("bool", ValueType::Bool),
        ("char", ValueType::Char),
        ("binary", ValueType::Binary),
        ("glob", ValueType::Glob),
        ("file", ValueType::File),
        ("duration", ValueType::Duration),
        ("binary_reader", ValueType::BinaryReader),
        ("command", ValueType::Command),
        ("stream", ValueType::Stream),
        ("any", ValueType::Any),
    ];
    for (name, t) in named {
        assert_eq!(ValueType::from(name).unwrap(), t);
        assert_eq!(t.name(), name);
    }
    assert_eq!(ValueType::List(Box::new(ValueType::Integer)).name(), "list");
}

#[test]
fn unknown_type_name() {
    for name in ["", "String", "int", "list", "text", "strin", "strings"] {
        let err = ValueType::from(name).unwrap_err();
        assert_eq!(err.kind, ErrorKind::Type);
        assert_eq!(err.message, format!("Unknown type {}", name));
    }
}

#[test]
fn parse_by_type() {
    assert_eq!(ValueType::Text.parse("hello").unwrap(), text("hello"));
    assert_eq!(ValueType::Text.parse("").unwrap(), text(""));
    assert_eq!(ValueType::Integer.parse("30").unwrap(), Value::Integer(30));
    assert_eq!(ValueType::Integer.parse("-30").unwrap(), Value::Integer(-30));
    assert_eq!(ValueType::Bool.parse("true").unwrap(), Value::Bool(true));
    assert_eq!(ValueType::Bool.parse("false").unwrap(), Value::Bool(false));
    assert_eq!(ValueType::Char.parse("x").unwrap(), Value::Char('x'));
    assert_eq!(ValueType::Char.parse("\u{e9}").unwrap(), Value::Char('\u{e9}'));
    assert_eq!(ValueType::Glob.parse("*.rs").unwrap(), Value::Glob(Glob::new("*.rs")));
    assert_eq!(ValueType::File.parse("/etc/hosts").unwrap(), Value::File("/etc/hosts".to_string()));
}

#[test]
fn parse_errors_name_the_text_and_the_type() {
    let cases = [
        (ValueType::Integer, "not-a-number", "Invalid integer: not-a-number"),
        (ValueType::Integer, "", "Invalid integer: "),
        (ValueType::Bool, "True", "Invalid bool: True"),
        (ValueType::Char, "ab", "Invalid char: ab"),
        (ValueType::Char, "", "Invalid char: "),
        (ValueType::Binary, "00", "Invalid binary: 00"),
        (ValueType::Duration, "3", "Invalid duration: 3"),
        (ValueType::Empty, "", "Invalid empty: "),
        (ValueType::Any, "x", "Invalid any: x"),
        (ValueType::Command, "x", "Invalid command: x"),
        (ValueType::Stream, "x", "Invalid stream: x"),
        (ValueType::BinaryReader, "x", "Invalid binary_reader: x"),
        (ValueType::List(Box::new(ValueType::Text)), "x", "Invalid list: x"),
    ];
    for (t, input, message) in cases {
        let err = t.parse(input).unwrap_err();
        assert_eq!(err.kind, ErrorKind::Parse);
        assert_eq!(err.message, message);
    }
}

#[test]
fn display_then_parse_gives_the_value_back() {
    let values = vec![
        text("hello, world"),
        text(""),
        Value::Integer(0),
        Value::Integer(-1),
        Value::Integer(1234567890),
        Value::Integer(i128::MAX),
        Value::Integer(i128::MIN),
        Value::Bool(true),
        Value::Bool(false),
        Value::Char('q'),
        Value::Char('\u{1F600}'),
        Value::Glob(Glob::new("a*?b")),
        Value::File("dir/file.txt".to_string()),
    ];
    for v in values {
        let shown = v.to_text();
        assert_eq!(v.value_type().parse(&shown).unwrap(), v);
    }
}

#[test]
fn display_forms() {
    assert_eq!(Value::Empty.to_text(), "");
    assert_eq!(Value::Integer(-42).to_text(), "-42");
    assert_eq!(Value::Bool(true).to_text(), "true");
    assert_eq!(Value::Char('c').to_text(), "c");
    assert_eq!(Value::Duration(-90).to_text(), "-90");
    assert_eq!(Value::Binary(vec![1, 2]).to_text(), "<binary>");
    assert_eq!(Value::List(ValueType::Integer, vec![Value::Integer(1)]).to_text(), "<list>");
    assert_eq!(Value::BinaryReader(BinaryReader::new(Vec::new())).to_text(), "<binary_reader>");
    assert_eq!(Value::Command(3).to_text(), "<command>");
    assert_eq!(Value::Stream(0).to_text(), "<stream>");
}

#[test]
fn types_of_values() {
    assert_eq!(Value::Empty.value_type(), ValueType::Empty);
    assert_eq!(text("x").value_type(), ValueType::Text);
    assert_eq!(Value::Integer(1).value_type(), ValueType::Integer);
    assert_eq!(Value::Bool(true).value_type(), ValueType::Bool);
    assert_eq!(Value::Char('x').value_type(), ValueType::Char);
    assert_eq!(Value::Binary(Vec::new()).value_type(), ValueType::Binary);
    assert_eq!(Value::Glob(Glob::new("")).value_type(), ValueType::Glob);
    assert_eq!(Value::File(String::new()).value_type(), ValueType::File);
    assert_eq!(Value::Duration(1).value_type(), ValueType::Duration);
    assert_eq!(
        Value::List(ValueType::File, Vec::new()).value_type(),
        ValueType::List(Box::new(ValueType::File))
    );
    assert_eq!(
        Value::BinaryReader(BinaryReader::new(Vec::new())).value_type(),
        ValueType::BinaryReader
    );
    assert_eq!(Value::Command(0).value_type(), ValueType::Command);
    assert_eq!(Value::Stream(0).value_type(), ValueType::Stream);
}

#[test]
fn assignability() {
    assert!(ValueType::Integer.is(&Value::Integer(1)));
    assert!(!ValueType::Integer.is(&text("1")));
    assert!(ValueType::Any.is(&text("1")));
    assert!(ValueType::Any.is(&Value::Empty));
    let list = Value::List(ValueType::Integer, Vec::new());
    assert!(ValueType::List(Box::new(ValueType::Integer)).is(&list));
    assert!(!ValueType::List(Box::new(ValueType::Text)).is(&list));
    assert!(!ValueType::List(Box::new(ValueType::Any)).is(&list));
    assert!(ValueType::List(Box::new(ValueType::Text)).equals(&ValueType::List(Box::new(ValueType::Text))));
    assert!(!ValueType::Text.equals(&ValueType::File));
    let t = ValueType::List(Box::new(ValueType::List(Box::new(ValueType::Bool))));
    assert_eq!(t.clone(), t);
}

#[test]
fn integers_from_text() {
    assert_eq!(parse_integer("0"), Some(0));
    assert_eq!(parse_integer("007"), Some(7));
    assert_eq!(parse_integer("+15"), Some(15));
    assert_eq!(parse_integer("-15"), Some(-15));
    assert_eq!(parse_integer("-0"), Some(0));
    assert_eq!(parse_integer("170141183460469231731687303715884105727"), Some(i128::MAX));
    assert_eq!(parse_integer("-170141183460469231731687303715884105728"), Some(i128::MIN));
    assert_eq!(parse_integer("170141183460469231731687303715884105728"), None);
    assert_eq!(parse_integer("-170141183460469231731687303715884105729"), None);
    assert_eq!(parse_integer("99999999999999999999999999999999999999999999"), None);
    for bad in ["", "+", "-", "--1", "+-1", "1 ", " 1", "1_000", "12a", "a12", "1.5", "\u{0661}"] {
        assert_eq!(parse_integer(bad), None, "{:?}", bad);
    }
}

#[test]
fn integers_agree_with_the_standard_library() {
    for s in ["0", "-1", "+7", "42", "-0042", "340282366920938463463374607431768211455", "x"] {
        assert_eq!(parse_integer(s), s.parse::<i128>().ok(), "{}", s);
    }
    for v in [0i128, 9, 10, -10, 99, 100, 12345, -98765, i128::MAX, i128::MIN, i128::MIN + 1] {
        assert_eq!(integer_to_string(v), v.to_string());
    }
}

#[test]
fn text_helpers() {
    assert_eq!(split("a,b,c", ','), vec!["a", "b", "c"]);
    assert_eq!(split("", ','), vec![""]);
    assert_eq!(split(",", ','), vec!["", ""]);
    assert_eq!(split("a,", ','), vec!["a", ""]);
    assert_eq!(split(",a", ','), vec!["", "a"]);
    assert_eq!(split("abc", ','), vec!["abc"]);
    assert_eq!(split("\u{e9}|\u{e8}", '|'), vec!["\u{e9}", "\u{e8}"]);
    assert_eq!(trim_matches("xxaxbxx", 'x'), "axb");
    assert_eq!(trim_matches("xxxx", 'x'), "");
    assert_eq!(trim_matches("", 'x'), "");
    assert_eq!(trim_matches("abc", 'x'), "abc");
    assert_eq!(trim_matches("xa", 'x'), "a");
    assert_eq!(trim_matches("ax", 'x'), "a");
    assert!(text_eq("abc", "abc"));
    assert!(!text_eq("abc", "abd"));
    assert!(!text_eq("abc", "ab"));
    assert!(text_eq("", ""));
    assert_eq!(chars_of("h\u{e9}"), vec!['h', '\u{e9}']);
    assert_eq!(char_at(&vec!['a', 'b'], 1), 'b');
}

fn schema() -> Schema {
    Schema::new(vec![
        ColumnType::named("name", ValueType::Text),
        ColumnType::named("age", ValueType::Integer),
        ColumnType::named("extra", ValueType::Any),
    ])
    .unwrap()
}

#[test]
fn row_of_the_right_shape_is_accepted() {
    let s = schema();
    assert_eq!(s.len(), 3);
    assert_eq!(s.columns()[1], ColumnType::named("age", ValueType::Integer));
    let cells = vec![text("alice"), Value::Integer(30), Value::Bool(true)];
    let row = s.row(cells).unwrap();
    assert_eq!(row, Row::new(vec![text("alice"), Value::Integer(30), Value::Bool(true)]));
    assert!(s.validate(&row).is_ok());
    assert_eq!(s.clone(), s);
}

#[test]
fn row_of_another_arity_is_refused() {
    let s = schema();
    for cells in [
        Vec::new(),
        vec![text("alice")],
        vec![text("alice"), Value::Integer(30)],
        vec![text("alice"), Value::Integer(30), Value::Empty, Value::Empty],
    ] {
        let err = s.row(cells).unwrap_err();
        assert_eq!(err.kind, ErrorKind::Schema);
        assert_eq!(err.message, "Wrong number of cells in row");
    }
}

#[test]
fn cell_of_the_wrong_type_is_refused() {
    let s = schema();
    let err = s.row(vec![Value::Integer(1), text("x"), Value::Empty]).unwrap_err();
    assert_eq!(err.kind, ErrorKind::Schema);
    assert_eq!(err.message, "Wrong type of value in column name");
    let err = s.row(vec![text("x"), text("x"), Value::Empty]).unwrap_err();
    assert_eq!(err.message, "Wrong type of value in column age");
}

#[test]
fn schema_needs_unique_names() {
    let err = Schema::new(vec![
        ColumnType::named("a", ValueType::Text),
        ColumnType::named("b", ValueType::Text),
        ColumnType::named("a", ValueType::Integer),
    ])
    .unwrap_err();
    assert_eq!(err.kind, ErrorKind::Schema);
    assert_eq!(err.message, "Column names must be unique");
    assert!(Schema::new(Vec::new()).is_ok());
    let empty = Schema::new(Vec::new()).unwrap();
    assert!(empty.row(Vec::new()).is_ok());
}

#[test]
fn typed_access_to_arguments() {
    let args = vec![Argument::unnamed(text("first")), Argument::named("n", Value::Integer(2))];
    assert_eq!(args.string(0).unwrap(), "first");
    assert_eq!(args.string(1).unwrap_err().message, "Expected an argument of type string");
    assert_eq!(args.string(2).unwrap_err().message, "Missing argument");
    assert_eq!(args[1].name, Some("n".to_string()));
    assert_eq!(Some(Value::Glob(Glob::new("x*"))).glob().unwrap(), Glob::new("x*"));
    assert_eq!(Some(text("x*")).glob().unwrap_err().kind, ErrorKind::Argument);
    assert_eq!(None.glob().unwrap_err().message, "Expected a receiver of type glob");
}

#[test]
fn receiver_end_gives_its_value_once() {
    let mut r = ValueReceiver::new(Some(Value::Integer(5)));
    assert_eq!(r.recv().unwrap(), Value::Integer(5));
    let err = r.recv().unwrap_err();
    assert_eq!(err.kind, ErrorKind::Closed);
}

#[test]
fn first_file_of_a_path_is_opened() {
    let files = vec![
        FileEntry { path: "a".to_string(), lines: Some(vec!["1\n".to_string()]) },
        FileEntry { path: "a".to_string(), lines: None },
    ];
    let mut reader = open_file(&files, "a").unwrap();
    assert_eq!(reader.peek_line(), "1\n");
    reader.advance();
    assert_eq!(reader.peek_line(), "");
    reader.advance();
    assert_eq!(reader.next, 1);
}

#[test]
fn error_constructors() {
    assert_eq!(argument_error("bad"), CrushError::new(ErrorKind::Argument, "bad"));
    let e = CrushError::with_detail(ErrorKind::Io, "No such file: ", "x");
    assert_eq!(e.message, "No such file: x");
    assert_eq!(e.duplicate(), e);
}
