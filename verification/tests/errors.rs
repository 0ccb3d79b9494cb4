use serde_py::de::{from_py, Deserializer};
use serde_py::error::Error;
use serde_py::typed::{Shape, VariantShape};
use serde_py::value::Value;

fn s(text: &str) -> String {
    text.to_owned()
}

fn vstr(text: &str) -> Value {
    Value::Str(s(text))
}

#[test]
fn test_expected_boolean() {
    assert!(matches!(from_py(&Shape::Bool, &Value::Int(1)), Err(Error::ExpectedBoolean)));
}

#[test]
fn test_expected_integer() {
    assert!(matches!(from_py(&Shape::U32, &vstr("7")), Err(Error::ExpectedInteger)));
    // A value that does not fit the requested width is the same mismatch.
    assert!(matches!(from_py(&Shape::I16, &Value::Int(40000)), Err(Error::ExpectedInteger)));
}

#[test]
fn test_expected_char() {
    assert!(matches!(from_py(&Shape::Char, &Value::Int(7)), Err(Error::ExpectedChar)));
    // A string of the wrong length is a string mismatch.
    assert!(matches!(from_py(&Shape::Char, &vstr("ab")), Err(Error::ExpectedString)));
}

#[test]
fn test_expected_string() {
    assert!(matches!(from_py(&Shape::Str, &Value::Null), Err(Error::ExpectedString)));
}

#[test]
fn test_expected_bytes() {
    assert!(matches!(from_py(&Shape::Bytes, &Value::Bool(true)), Err(Error::ExpectedBytes)));
    // A sequence holding anything but small integers cannot materialize.
    let input = Value::List(vec![Value::Int(97), Value::Int(256)]);
    assert!(matches!(from_py(&Shape::Bytes, &input), Err(Error::ExpectedBytes)));
}

#[test]
fn test_expected_none() {
    assert!(matches!(from_py(&Shape::Unit, &Value::Int(0)), Err(Error::ExpectedNone)));
    assert!(matches!(from_py(&Shape::UnitStruct, &vstr("")), Err(Error::ExpectedNone)));
}

#[test]
fn test_expected_list() {
    let shape = Shape::Sequence(Box::new(Shape::U32));
    assert!(matches!(from_py(&shape, &Value::Int(3)), Err(Error::ExpectedList)));
}

#[test]
fn test_expected_dict() {
    let shape = Shape::Mapping(Box::new(Shape::Str), Box::new(Shape::U32));
    assert!(matches!(from_py(&shape, &Value::Int(3)), Err(Error::ExpectedDict)));
    let shape = Shape::Struct(vec![(s("a"), Shape::U32)]);
    assert!(matches!(from_py(&shape, &vstr("a")), Err(Error::ExpectedDict)));
    // An enum value that is neither a string nor a mapping.
    let shape = Shape::Enum(vec![(s("Unit"), VariantShape::Unit)]);
    assert!(matches!(from_py(&shape, &Value::Int(3)), Err(Error::ExpectedDict)));
}

#[test]
fn test_expected_enum_key() {
    // The mapping form of an enum value must be non-empty.
    let shape = Shape::Enum(vec![(s("Unit"), VariantShape::Unit)]);
    assert!(matches!(from_py(&shape, &Value::Dict(vec![])), Err(Error::ExpectedEnumKey)));
}

#[test]
fn test_enum_extra_entries() {
    // The mapping form of an enum value must hold exactly one entry; extra
    // entries are rejected, not silently ignored.
    let shape = Shape::Enum(vec![
        (s("A"), VariantShape::Newtype(Box::new(Shape::U32))),
        (s("B"), VariantShape::Newtype(Box::new(Shape::U32))),
    ]);
    let input = Value::Dict(vec![
        (vstr("A"), Value::Int(1)),
        (vstr("B"), Value::Int(2)),
    ]);
    assert!(matches!(from_py(&shape, &input), Err(Error::ExpectedEnumValue)));
}

#[test]
fn test_enum_key_not_string() {
    let shape = Shape::Enum(vec![(s("Unit"), VariantShape::Unit)]);
    let input = Value::Dict(vec![(Value::Int(1), Value::Int(2))]);
    assert!(matches!(from_py(&shape, &input), Err(Error::ExpectedString)));
}

#[test]
fn test_missing_field() {
    let shape = Shape::Struct(vec![(s("a"), Shape::U32), (s("b"), Shape::U32)]);
    let input = Value::Dict(vec![(vstr("a"), Value::Int(1))]);
    match from_py(&shape, &input) {
        Err(Error::Message(msg)) => assert_eq!(msg, "missing field"),
        other => panic!("expected a missing-field error, got {:?}", other),
    }
}

#[test]
fn test_unknown_variant() {
    let shape = Shape::Enum(vec![(s("Unit"), VariantShape::Unit)]);
    match from_py(&shape, &vstr("Other")) {
        Err(Error::Message(msg)) => assert_eq!(msg, "unknown variant"),
        other => panic!("expected an unknown-variant error, got {:?}", other),
    }
}

#[test]
fn test_invalid_length() {
    let shape = Shape::Tuple(vec![Shape::U32, Shape::U32]);
    let input = Value::List(vec![Value::Int(1)]);
    match from_py(&shape, &input) {
        Err(Error::Message(msg)) => assert_eq!(msg, "invalid length"),
        other => panic!("expected an invalid-length error, got {:?}", other),
    }
}

#[test]
fn test_syntax() {
    // No inference probe matches a negative integer in this model (only the
    // host's float probe would), nor a raw byte buffer.
    assert!(matches!(from_py(&Shape::Any, &Value::Int(-1)), Err(Error::Syntax)));
    assert!(matches!(from_py(&Shape::Any, &Value::Bytes(vec![1])), Err(Error::Syntax)));
}

#[test]
fn test_first_failure_aborts() {
    // The first coercion failure is terminal: a bad element aborts the
    // whole sequence.
    let shape = Shape::Sequence(Box::new(Shape::U32));
    let input = Value::List(vec![Value::Int(1), vstr("x"), Value::Int(3)]);
    assert!(matches!(from_py(&shape, &input), Err(Error::ExpectedInteger)));
}

#[test]
fn test_error_message_labels() {
    assert_eq!(Error::ExpectedBoolean.message(), "expected: boolean");
    assert_eq!(Error::ExpectedEnumKey.message(), "expected: non-empty dict");
    assert_eq!(Error::custom(s("boom")).message(), "boom");
    assert_eq!(Error::Host(s("host text kept verbatim")).message(), "host text kept verbatim");
}

#[test]
fn test_is_none_probe() {
    let null = Value::Null;
    let d = Deserializer::from_py(&null);
    assert!(d.is_none());
    let zero = Value::Int(0);
    let d = Deserializer::from_py(&zero);
    assert!(!d.is_none());
}
