use chrono::{DateTime, Utc};
use remap_functions::error::Error;
use remap_functions::expression::{Expr, Literal, Query, Variable};
use remap_functions::function::{ArgumentList, Function};
use remap_functions::kind::Kind;
use remap_functions::parse_timestamp::{
    specifier_for, timestamp_from, ParseTimestamp, ParseTimestampFn,
};
use remap_functions::state::{Compiler, Program};
use remap_functions::time::Timestamp;
use remap_functions::type_def::TypeDef;
use remap_functions::value::{Entry, Value};

fn timestamp(at: DateTime<Utc>) -> Value {
    Value::Timestamp(Timestamp::new(at.timestamp(), at.timestamp_subsec_nanos()).unwrap())
}

fn noon() -> DateTime<Utc> {
    DateTime::parse_from_rfc2822("Wed, 16 Oct 2019 12:00:00 +0000").unwrap().with_timezone(&Utc)
}

fn mapping(key: &str, value: Value) -> Value {
    Value::Mapping(vec![Entry { key: key.to_string(), value }])
}

fn run(node: &ParseTimestampFn) -> Result<Value, String> {
    let mut state = Program::default();
    let mut object = Value::Null;
    node.execute(&mut state, &mut object).map_err(|e| e.message())
}

fn of_literal(format: &str, value: Value) -> ParseTimestampFn {
    ParseTimestampFn::new(format, Literal::new(value).boxed())
}

#[test]
fn parse_timestamp() {
    let cases = vec![
        (
            mapping(
                "foo",
                timestamp(
                    DateTime::parse_from_rfc2822("Wed, 16 Oct 2019 12:00:00 +0000")
                        .unwrap()
                        .with_timezone(&Utc),
                ),
            ),
            Ok(timestamp(
                DateTime::parse_from_rfc2822("Wed, 16 Oct 2019 12:00:00 +0000")
                    .unwrap()
                    .with_timezone(&Utc),
            )),
            ParseTimestampFn::new("%d/%m/%Y:%H:%M:%S %z", Query::field("foo").boxed()),
        ),
        (
            mapping("foo", Value::from_text("16/10/2019:12:00:00 +0000")),
            Ok(timestamp(
                DateTime::parse_from_rfc2822("Wed, 16 Oct 2019 12:00:00 +0000")
                    .unwrap()
                    .with_timezone(&Utc),
            )),
            ParseTimestampFn::new("%d/%m/%Y:%H:%M:%S %z", Query::field("foo").boxed()),
        ),
    ];

    let mut state = Program::default();

    for (object, exp, func) in cases {
        let mut object: Value = object;
        let got = func.execute(&mut state, &mut object).map_err(|e| e.message());

        assert_eq!(got, exp);
    }
}

#[test]
fn parse_timestamp_reads_exact_instant() {
    let got = run(&of_literal(
        "%d/%m/%Y:%H:%M:%S %z",
        Value::from_text("16/10/2019:12:00:00 +0000"),
    ));
    assert_eq!(got, Ok(Value::Timestamp(Timestamp::new(1571227200, 0).unwrap())));
}

#[test]
fn parse_timestamp_honours_the_zone() {
    let got = run(&of_literal(
        "%d/%m/%Y:%H:%M:%S %z",
        Value::from_text("16/10/2019:14:00:00 +0200"),
    ));
    assert_eq!(got, Ok(timestamp(noon())));
}

#[test]
fn parse_timestamp_without_zone_is_utc() {
    let got = run(&of_literal("%Y-%m-%d %H:%M:%S", Value::from_text("2019-10-16 12:00:00")));
    assert_eq!(got, Ok(timestamp(noon())));
    let got = run(&of_literal("%Y-%m-%d %H:%M:%S%.3f", Value::from_text("2019-10-16 12:00:00.250")));
    assert_eq!(got, Ok(Value::Timestamp(Timestamp::new(1571227200, 250_000_000).unwrap())));
}

#[test]
fn parse_timestamp_passes_timestamps() {
    assert_eq!(run(&of_literal("<any format>", timestamp(noon()))), Ok(timestamp(noon())));
    assert_eq!(run(&of_literal("", timestamp(noon()))), Ok(timestamp(noon())));
}

#[test]
fn parse_timestamp_passes_timestamps_when_the_format_fails() {
    let node = ParseTimestampFn {
        value: Literal::new(timestamp(noon())).boxed(),
        format: Variable::new("missing".to_owned()).boxed(),
    };
    assert_eq!(run(&node), Ok(timestamp(noon())));
    let node = ParseTimestampFn {
        value: Literal::new(timestamp(noon())).boxed(),
        format: Literal::new(Value::Integer(1)).boxed(),
    };
    assert_eq!(run(&node), Ok(timestamp(noon())));
}

#[test]
fn parse_timestamp_of_integer_fails() {
    let expected = Err("unable to convert value to integer".to_string());
    assert_eq!(run(&of_literal("<any format>", Value::Integer(12345))), expected);
    assert_eq!(run(&of_literal("%s", Value::Integer(12345))), expected);
    assert_eq!(run(&of_literal("%s", Value::Null)), expected);
    assert_eq!(run(&of_literal("%s", Value::Boolean(true))), expected);
    assert_eq!(run(&of_literal("%s", Value::Array(vec![]))), expected);
    assert!(Error::NotTimestamp.is_conversion());
}

#[test]
fn parse_timestamp_of_malformed_text_fails() {
    let got = run(&of_literal("%d/%m/%Y:%H:%M:%S %z", Value::from_text("yesterday")));
    assert_eq!(got, Err("invalid timestamp: yesterday".to_string()));
    let got = run(&of_literal("%Y-%m-%d", Value::from_text("16/10/2019")));
    assert_eq!(got, Err("invalid timestamp: 16/10/2019".to_string()));
    assert!(Error::InvalidTimestamp("x".to_string()).is_conversion());
}

#[test]
fn parse_timestamp_of_text_that_is_not_utf8_fails() {
    let got = run(&of_literal("%Y", Value::Bytes(vec![0x32, 0xff])));
    assert_eq!(got, Err("invalid timestamp: 2\u{fffd}".to_string()));
}

#[test]
fn parse_timestamp_fails_with_the_format() {
    let node = ParseTimestampFn {
        value: Literal::text("16/10/2019:12:00:00 +0000").boxed(),
        format: Variable::new("missing".to_owned()).boxed(),
    };
    assert_eq!(run(&node), Err("undefined variable: missing".to_string()));
}

#[test]
fn parse_timestamp_wants_the_format_in_bytes() {
    let node = ParseTimestampFn {
        value: Literal::text("16/10/2019:12:00:00 +0000").boxed(),
        format: Literal::new(Value::Integer(3)).boxed(),
    };
    assert_eq!(run(&node), Err("unable to convert value to bytes".to_string()));
    assert_eq!(
        timestamp_from(Value::from_text("x"), Ok(Value::Null)),
        Err(Error::NotBytes)
    );
    assert!(Error::NotBytes.is_conversion());
}

#[test]
fn parse_timestamp_fails_first_with_the_value() {
    let node = ParseTimestampFn {
        value: Variable::new("value".to_owned()).boxed(),
        format: Variable::new("format".to_owned()).boxed(),
    };
    assert_eq!(run(&node), Err("undefined variable: value".to_string()));
}

#[test]
fn parse_timestamp_specifier() {
    assert_eq!(specifier_for(b"%Y-%m-%d"), "timestamp|%Y-%m-%d");
    assert_eq!(specifier_for(b""), "timestamp|");
    assert_eq!(specifier_for(&[0x25, 0xff, 0x59]), "timestamp|%\u{fffd}Y");
}

#[test]
fn parse_timestamp_value_string_infallible() {
    let node = ParseTimestampFn {
        value: Literal::text("<timestamp>").boxed(),
        format: Literal::text("<format>").boxed(),
    };
    assert_eq!(
        node.type_def(&Compiler::default()),
        TypeDef { fallible: false, kind: Kind::timestamp() }
    );
}

#[test]
fn parse_timestamp_value_timestamp_infallible() {
    let node = ParseTimestampFn {
        value: Literal::new(timestamp(noon())).boxed(),
        format: Literal::text("<format>").boxed(),
    };
    assert_eq!(
        node.type_def(&Compiler::default()),
        TypeDef { fallible: false, kind: Kind::timestamp() }
    );
}

#[test]
fn parse_timestamp_value_wrong_type_fallible() {
    let node = ParseTimestampFn {
        value: Literal::new(Value::Integer(12345)).boxed(),
        format: Literal::text("<format>").boxed(),
    };
    assert_eq!(
        node.type_def(&Compiler::default()),
        TypeDef { fallible: true, kind: Kind::timestamp() }
    );
}

#[test]
fn parse_timestamp_of_any_kind_is_fallible() {
    let node = ParseTimestampFn::new("%s", Query::field("foo").boxed());
    assert_eq!(
        node.type_def(&Compiler::default()),
        TypeDef { fallible: true, kind: Kind::timestamp() }
    );
    let mut declared = Compiler::default();
    declared.declare("at", TypeDef { fallible: false, kind: Kind::bytes().union(Kind::timestamp()) });
    declared.declare("n", TypeDef { fallible: false, kind: Kind::bytes().union(Kind::integer()) });
    let node = ParseTimestampFn::new("%s", Variable::new("at".to_owned()).boxed());
    assert!(!node.type_def(&declared).fallible);
    let node = ParseTimestampFn::new("%s", Variable::new("n".to_owned()).boxed());
    assert!(node.type_def(&declared).fallible);
}

#[test]
fn parse_timestamp_function_declares_two_parameters() {
    assert_eq!(ParseTimestamp.identifier(), "parse_timestamp");
    let parameters = ParseTimestamp.parameters();
    assert_eq!(parameters.len(), 2);
    assert_eq!(parameters[0].keyword, "value");
    assert!(parameters[0].required);
    assert!(parameters[0].accepts_value(&Value::from_text("x")));
    assert!(parameters[0].accepts_value(&timestamp(noon())));
    assert!(!parameters[0].accepts_value(&Value::Integer(1)));
    assert!(!parameters[0].accepts_value(&Value::Null));
    assert_eq!(parameters[1].keyword, "format");
    assert!(parameters[1].required);
    assert!(parameters[1].accepts_value(&Value::from_text("%s")));
    assert!(!parameters[1].accepts_value(&timestamp(noon())));
}

#[test]
fn parse_timestamp_compiles_with_both_arguments() {
    let mut arguments = ArgumentList::new();
    arguments.insert("format", Expr::Literal(Literal::text("%d/%m/%Y:%H:%M:%S %z")));
    arguments.insert("value", Expr::Literal(Literal::text("16/10/2019:12:00:00 +0000")));
    let node = ParseTimestamp.compile(arguments).unwrap();
    let mut state = Program::default();
    let mut object = Value::Null;
    assert_eq!(node.execute(&mut state, &mut object), Ok(timestamp(noon())));
    assert_eq!(
        node.type_def(&Compiler::default()),
        TypeDef { fallible: false, kind: Kind::timestamp() }
    );
}

#[test]
fn parse_timestamp_does_not_compile_without_an_argument() {
    let mut arguments = ArgumentList::new();
    arguments.insert("format", Expr::Literal(Literal::text("%s")));
    assert_eq!(
        ParseTimestamp.compile(arguments),
        Err(Error::MissingArgument("value".to_string()))
    );

    let mut arguments = ArgumentList::new();
    arguments.insert("value", Expr::Literal(Literal::text("1")));
    assert_eq!(
        ParseTimestamp.compile(arguments),
        Err(Error::MissingArgument("format".to_string()))
    );

    assert_eq!(
        ParseTimestamp.compile(ArgumentList::new()),
        Err(Error::MissingArgument("value".to_string()))
    );
}
