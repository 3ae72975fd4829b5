use remap_functions::expression::{Expr, Literal, Query, Variable};
use remap_functions::kind::{Kind, Variant};
use remap_functions::mapping::{entry_index, entry_slot, entry_value, put_entry};
use remap_functions::number::Float;
use remap_functions::object::{can_set, Object, Path, Segment};
use remap_functions::pattern::Regex;
use remap_functions::state::{Compiler, Program};
use remap_functions::time::Timestamp;
use remap_functions::type_def::TypeDef;
use remap_functions::value::{Entry, Value};

fn entry(key: &str, value: Value) -> Entry {
    Entry { key: key.to_string(), value }
}

fn sample() -> Value {
    Value::Mapping(vec![
        entry("a", Value::Integer(1)),
        entry(
            "b",
            Value::Array(vec![
                Value::Null,
                Value::Mapping(vec![entry("c", Value::Boolean(true))]),
            ]),
        ),
        entry("text", Value::from_text("hello")),
    ])
}

#[test]
fn value_variants_and_kinds() {
    assert_eq!(Value::from_text("a").variant(), Variant::Bytes);
    assert_eq!(Value::Integer(1).variant(), Variant::Integer);
    assert_eq!(Value::Float(Float::new(0, "0".to_string())).variant(), Variant::Float);
    assert_eq!(Value::Boolean(false).variant(), Variant::Boolean);
    assert_eq!(Value::Timestamp(Timestamp::new(0, 0).unwrap()).variant(), Variant::Timestamp);
    assert_eq!(Value::Regex(Regex::new("a").unwrap()).variant(), Variant::Regex);
    assert_eq!(Value::Null.variant(), Variant::Null);
    assert_eq!(Value::Mapping(vec![]).variant(), Variant::Mapping);
    assert_eq!(Value::Array(vec![]).variant(), Variant::Array);
    assert_eq!(Value::Integer(1).kind(), Kind::integer());
    assert_eq!(sample().kind(), Kind::mapping());
}

#[test]
fn value_from_text_is_utf8() {
    assert_eq!(Value::from_text("é"), Value::Bytes(vec![0xc3, 0xa9]));
    assert_eq!(Value::from_text(""), Value::Bytes(vec![]));
}

#[test]
fn value_duplicate_is_equal() {
    let value = sample();
    assert_eq!(value.duplicate(), value);
    let float = Value::Float(Float::new(7, "x".to_string()));
    assert_eq!(float.duplicate(), float);
    let regex = Value::Regex(Regex::new("a|b").unwrap());
    assert_eq!(regex.duplicate(), regex);
}

#[test]
fn value_get_follows_the_path() {
    let value = sample();
    assert_eq!(value.get(&Path::root()), Ok(Some(sample())));
    assert_eq!(value.get(&Path::field("a")), Ok(Some(Value::Integer(1))));
    assert_eq!(value.get(&Path::field("missing")), Ok(None));
    assert_eq!(value.get(&Path::field("b").then_index(0)), Ok(Some(Value::Null)));
    assert_eq!(
        value.get(&Path::field("b").then_index(1).then_field("c")),
        Ok(Some(Value::Boolean(true)))
    );
    assert_eq!(value.get(&Path::field("b").then_index(2)), Ok(None));
    assert_eq!(value.get(&Path::field("a").then_field("x")), Ok(None));
    assert_eq!(value.get(&Path::field("a").then_index(0)), Ok(None));
    assert_eq!(Value::Integer(3).get(&Path::field("a")), Ok(None));
    assert_eq!(
        Path::field("b").then_index(1),
        Path::new(vec![Segment::Field("b".to_string()), Segment::Index(1)])
    );
}

#[test]
fn value_get_takes_the_first_entry_of_a_key() {
    let value = Value::Mapping(vec![entry("k", Value::Integer(1)), entry("k", Value::Integer(2))]);
    assert_eq!(value.get(&Path::field("k")), Ok(Some(Value::Integer(1))));
}

#[test]
fn value_insert_then_get() {
    let mut value = sample();
    let path = Path::field("b").then_index(1).then_field("d");
    assert_eq!(value.insert(&path, Value::Integer(9)), Ok(()));
    assert_eq!(value.get(&path), Ok(Some(Value::Integer(9))));
    assert_eq!(
        value.get(&Path::field("b").then_index(1).then_field("c")),
        Ok(Some(Value::Boolean(true)))
    );
    assert_eq!(value.get(&Path::field("a")), Ok(Some(Value::Integer(1))));

    assert_eq!(value.insert(&Path::field("a"), Value::from_text("new")), Ok(()));
    assert_eq!(value.get(&Path::field("a")), Ok(Some(Value::from_text("new"))));

    assert_eq!(value.insert(&Path::root(), Value::Null), Ok(()));
    assert_eq!(value, Value::Null);
}

#[test]
fn value_insert_makes_mappings_on_the_way() {
    let mut value = Value::Null;
    let path = Path::field("x").then_field("y");
    assert_eq!(value.insert(&path, Value::Integer(1)), Ok(()));
    assert_eq!(
        value,
        Value::Mapping(vec![entry("x", Value::Mapping(vec![entry("y", Value::Integer(1))]))])
    );
    assert_eq!(value.insert(&Path::field("a").then_field("b"), Value::Null), Ok(()));
    assert_eq!(value.get(&Path::field("a")), Ok(Some(Value::Mapping(vec![entry("b", Value::Null)]))));
}

#[test]
fn value_insert_keeps_keys_in_order() {
    let mut one = Value::Null;
    for key in ["m", "b", "z", "a", "b"] {
        assert_eq!(one.insert(&Path::field(key), Value::from_text(key)), Ok(()));
    }
    let mut other = Value::Null;
    for key in ["z", "a", "b", "m"] {
        assert_eq!(other.insert(&Path::field(key), Value::from_text(key)), Ok(()));
    }
    assert_eq!(one, other);
    assert_eq!(
        one,
        Value::Mapping(vec![
            entry("a", Value::from_text("a")),
            entry("b", Value::from_text("b")),
            entry("m", Value::from_text("m")),
            entry("z", Value::from_text("z")),
        ])
    );
}

#[test]
fn value_insert_refuses_what_cannot_be_followed() {
    let mut value = sample();
    assert!(value.insert(&Path::field("a").then_field("x"), Value::Null).is_err());
    assert!(value.insert(&Path::field("b").then_index(2), Value::Null).is_err());
    assert!(value.insert(&Path::root().then_index(0), Value::Null).is_err());
    assert_eq!(value, sample());
    assert!(!can_set(&value, &Path::field("text").then_index(0)));
    assert!(can_set(&value, &Path::field("text")));
    assert!(can_set(&value, &Path::field("new").then_field("deeper")));
}

#[test]
fn value_insert_replaces_an_item() {
    let mut value = Value::Array(vec![Value::Integer(1), Value::Integer(2)]);
    assert_eq!(value.insert(&Path::root().then_index(1), Value::Null), Ok(()));
    assert_eq!(value, Value::Array(vec![Value::Integer(1), Value::Null]));
    assert_eq!(
        value.insert(&Path::root().then_index(2), Value::Null),
        Err("the path cannot be followed".to_string())
    );
}

#[test]
fn entries_find_and_put() {
    let mut entries = vec![entry("b", Value::Integer(2)), entry("d", Value::Integer(4))];
    assert_eq!(entry_index(&entries, "d"), Some(1));
    assert_eq!(entry_index(&entries, "c"), None);
    assert_eq!(entry_value(&entries, "b"), Some(&Value::Integer(2)));
    assert_eq!(entry_value(&entries, "a"), None);
    assert_eq!(entry_slot(&entries, "a"), 0);
    assert_eq!(entry_slot(&entries, "c"), 1);
    assert_eq!(entry_slot(&entries, "e"), 2);
    put_entry(&mut entries, "c", Value::Integer(3));
    put_entry(&mut entries, "b", Value::Null);
    assert_eq!(
        entries,
        vec![entry("b", Value::Null), entry("c", Value::Integer(3)), entry("d", Value::Integer(4))]
    );
}

#[test]
fn literal_comes_to_its_value() {
    let mut state = Program::default();
    let mut object = sample();
    let node = Literal::new(Value::Integer(3)).boxed();
    assert_eq!(node.execute(&mut state, &mut object), Ok(Value::Integer(3)));
    assert_eq!(node.type_def(&Compiler::default()), TypeDef::new(Kind::integer(), false));
    assert_eq!(Literal::text("a").value, Value::Bytes(vec![97]));
    assert_eq!(object, sample());
}

#[test]
fn query_reads_the_target() {
    let mut state = Program::default();
    let mut object = sample();
    let node = Query::field("text").boxed();
    assert_eq!(node.execute(&mut state, &mut object), Ok(Value::from_text("hello")));
    let node = Query::new(Path::field("b").then_index(0)).boxed();
    assert_eq!(node.execute(&mut state, &mut object), Ok(Value::Null));
    let node = Query::field("nothing").boxed();
    assert_eq!(node.execute(&mut state, &mut object), Ok(Value::Null));
    assert_eq!(node.type_def(&Compiler::default()), TypeDef::new(Kind::all(), true));
    assert_eq!(object, sample());
    assert_eq!(*node, Expr::Query(Query::field("nothing")));
}

#[test]
fn variable_reads_the_state() {
    let mut state = Program::default();
    let mut object = Value::Null;
    let node = Variable::new("x".to_string()).boxed();
    assert_eq!(
        node.execute(&mut state, &mut object).map_err(|e| e.message()),
        Err("undefined variable: x".to_string())
    );
    state.bind("x", Value::Integer(1));
    assert_eq!(node.execute(&mut state, &mut object), Ok(Value::Integer(1)));
    state.bind("x", Value::Integer(2));
    state.bind("y", Value::Integer(3));
    assert_eq!(node.execute(&mut state, &mut object), Ok(Value::Integer(2)));
    assert_eq!(state.variable("y"), Some(&Value::Integer(3)));
    assert_eq!(state.variable("z"), None);

    let mut declared = Compiler::default();
    assert_eq!(node.type_def(&declared), TypeDef::new(Kind::all(), true));
    declared.declare("x", TypeDef::new(Kind::integer(), false));
    assert_eq!(node.type_def(&declared), TypeDef::new(Kind::integer(), false));
    assert_eq!(declared.variable_type("y"), None);
}
