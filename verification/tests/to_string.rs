use chrono::{DateTime, Utc};
use remap_functions::error::Error;
use remap_functions::expression::{Expr, Literal, Query, Variable};
use remap_functions::function::{ArgumentList, Function};
use remap_functions::kind::Kind;
use remap_functions::number::Float;
use remap_functions::pattern::Regex;
use remap_functions::state::{Compiler, Program};
use remap_functions::time::Timestamp;
use remap_functions::to_string::{to_text, ToString, ToStringFn};
use remap_functions::type_def::TypeDef;
use remap_functions::value::{Entry, Value};

fn float(number: f64) -> Value {
    Value::Float(Float::new(number.to_bits(), number.to_string()))
}

fn mapping(key: &str, value: Value) -> Value {
    Value::Mapping(vec![Entry { key: key.to_string(), value }])
}

fn timestamp(at: DateTime<Utc>) -> Value {
    Value::Timestamp(Timestamp::new(at.timestamp(), at.timestamp_subsec_nanos()).unwrap())
}

fn run(node: &ToStringFn) -> Result<Value, String> {
    let mut state = Program::default();
    let mut object = Value::Null;
    node.execute(&mut state, &mut object).map_err(|e| e.message())
}

fn of_literal(value: Value) -> ToStringFn {
    ToStringFn::new(Literal::new(value).boxed())
}

fn bytes_infallible() -> TypeDef {
    TypeDef { fallible: false, kind: Kind::bytes() }
}

#[test]
fn to_string() {
    let cases = vec![
        (
            mapping("foo", Value::Integer(20)),
            Ok(Value::from_text("20")),
            ToStringFn::new(Query::field("foo").boxed()),
        ),
        (
            mapping("foo", float(20.5)),
            Ok(Value::from_text("20.5")),
            ToStringFn::new(Query::field("foo").boxed()),
        ),
    ];

    let mut state = Program::default();

    for (object, exp, func) in cases {
        let mut object: Value = object;
        let got = func.execute(&mut state, &mut object).map_err(|e| e.message());

        assert_eq!(got, exp);
    }
}

#[test]
fn to_string_keeps_bytes() {
    let bytes = Value::Bytes(vec![0, 159, 146, 150, 255]);
    assert_eq!(run(&of_literal(Value::Bytes(vec![0, 159, 146, 150, 255]))), Ok(bytes));
}

#[test]
fn to_string_of_integers() {
    assert_eq!(run(&of_literal(Value::Integer(0))), Ok(Value::from_text("0")));
    assert_eq!(run(&of_literal(Value::Integer(7))), Ok(Value::from_text("7")));
    assert_eq!(run(&of_literal(Value::Integer(-45)), ), Ok(Value::from_text("-45")));
    assert_eq!(run(&of_literal(Value::Integer(1000))), Ok(Value::from_text("1000")));
    assert_eq!(
        run(&of_literal(Value::Integer(i64::MAX))),
        Ok(Value::from_text("9223372036854775807"))
    );
    assert_eq!(
        run(&of_literal(Value::Integer(i64::MIN))),
        Ok(Value::from_text("-9223372036854775808"))
    );
}

#[test]
fn to_string_of_floats() {
    assert_eq!(run(&of_literal(float(1.0))), Ok(Value::from_text("1")));
    assert_eq!(run(&of_literal(float(-0.25))), Ok(Value::from_text("-0.25")));
}

#[test]
fn to_string_of_booleans() {
    assert_eq!(run(&of_literal(Value::Boolean(true))), Ok(Value::from_text("true")));
    assert_eq!(run(&of_literal(Value::Boolean(false))), Ok(Value::from_text("false")));
}

#[test]
fn to_string_of_timestamp() {
    let at = DateTime::parse_from_rfc2822("Wed, 16 Oct 2019 12:00:00 +0000")
        .unwrap()
        .with_timezone(&Utc);
    assert_eq!(run(&of_literal(timestamp(at))), Ok(Value::from_text("2019-10-16 12:00:00 UTC")));
    assert_eq!(run(&of_literal(timestamp(at))), Ok(Value::from_text(&at.to_string())));
}

#[test]
fn to_string_of_regex() {
    let regex = Regex::new("^fo+\\d$").unwrap();
    assert_eq!(run(&of_literal(Value::Regex(regex))), Ok(Value::from_text("^fo+\\d$")));
}

#[test]
fn to_string_of_null_is_empty() {
    assert_eq!(run(&of_literal(Value::Null)), Ok(Value::Bytes(vec![])));
    assert_eq!(run(&of_literal(Value::Null)), Ok(Value::from_text("")));
}

#[test]
fn to_string_of_mapping_and_array_fails() {
    let expected = Err("unable to convert value to string".to_string());
    assert_eq!(run(&of_literal(Value::Mapping(vec![]))), expected);
    assert_eq!(run(&of_literal(Value::Array(vec![]))), expected);
    assert_eq!(run(&of_literal(mapping("a", Value::Integer(1)))), expected);
    assert_eq!(run(&of_literal(Value::Array(vec![Value::Null]))), expected);
    assert_eq!(to_text(Value::Array(vec![])), Err(Error::NotText));
    assert!(Error::NotText.is_conversion());
}

#[test]
fn to_string_of_mapping_and_array_is_declared_infallible() {
    let state = Compiler::default();
    assert_eq!(of_literal(Value::Mapping(vec![])).type_def(&state), bytes_infallible());
    assert_eq!(of_literal(Value::Array(vec![])).type_def(&state), bytes_infallible());
}

#[test]
fn to_string_type_def_of_scalars() {
    let state = Compiler::default();
    let at = DateTime::parse_from_rfc2822("Wed, 16 Oct 2019 12:00:00 +0000")
        .unwrap()
        .with_timezone(&Utc);
    let values = vec![
        Value::Boolean(true),
        Value::Integer(1),
        float(1.0),
        Value::Null,
        Value::from_text("foo"),
        timestamp(at),
        Value::Regex(Regex::new("a").unwrap()),
    ];
    for value in values {
        let node = of_literal(value);
        assert_eq!(node.type_def(&state), bytes_infallible());
        assert!(run(&node).is_ok());
    }
}

#[test]
fn to_string_fallible_value_without_default() {
    let state = Compiler::default();
    let node = ToStringFn::new(Variable::new("foo".to_owned()).boxed());
    assert_eq!(node.type_def(&state), TypeDef { fallible: true, kind: Kind::bytes() });
    assert_eq!(run(&node), Err("undefined variable: foo".to_string()));
}

#[test]
fn to_string_of_declared_variable() {
    let mut declared = Compiler::default();
    declared.declare("foo", TypeDef { fallible: false, kind: Kind::integer() });
    let node = ToStringFn::new(Variable::new("foo".to_owned()).boxed());
    assert_eq!(node.type_def(&declared), bytes_infallible());

    let mut state = Program::default();
    state.bind("foo", Value::Integer(12));
    let mut object = Value::Null;
    assert_eq!(node.execute(&mut state, &mut object), Ok(Value::from_text("12")));
}

#[test]
fn to_string_nested() {
    let node = ToStringFn::new(of_literal(Value::Integer(5)).boxed());
    assert_eq!(run(&node), Ok(Value::from_text("5")));
}

#[test]
fn to_string_function_declares_one_parameter() {
    assert_eq!(ToString.identifier(), "to_string");
    let parameters = ToString.parameters();
    assert_eq!(parameters.len(), 1);
    assert_eq!(parameters[0].keyword, "value");
    assert!(parameters[0].required);
    assert!(parameters[0].accepts.is_all());
    assert!(parameters[0].accepts_value(&Value::Mapping(vec![])));
    assert!(parameters[0].accepts_value(&Value::Integer(3)));
}

#[test]
fn to_string_compiles_with_value() {
    let mut arguments = ArgumentList::new();
    arguments.insert("value", Expr::Literal(Literal::new(Value::Integer(3))));
    let node = ToString.compile(arguments).unwrap();
    assert_eq!(node, Expr::ToString(of_literal(Value::Integer(3))));
    let mut state = Program::default();
    let mut object = Value::Null;
    assert_eq!(node.execute(&mut state, &mut object), Ok(Value::from_text("3")));
}

#[test]
fn to_string_does_not_compile_without_value() {
    let mut arguments = ArgumentList::new();
    arguments.insert("format", Expr::Literal(Literal::new(Value::Integer(3))));
    let failure = ToString.compile(arguments).unwrap_err();
    assert_eq!(failure, Error::MissingArgument("value".to_string()));
    assert!(failure.at_compile_time());
    assert_eq!(failure.message(), "missing required argument: value");
    assert!(ToString.compile(ArgumentList::new()).is_err());
}
