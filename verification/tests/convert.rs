use serde_py::de::from_py;
use serde_py::ser::to_py;
use serde_py::typed::{Shape, Typed, VariantShape};
use serde_py::value::Value;
use serde_py::FromPyDeserialize;

fn s(text: &str) -> String {
    text.to_owned()
}

fn vstr(text: &str) -> Value {
    Value::Str(s(text))
}

/// The shape of a struct with fields `int: u32` and `seq: Vec<String>`.
fn test_struct_shape() -> Shape {
    Shape::Struct(vec![
        (s("int"), Shape::U32),
        (s("seq"), Shape::Sequence(Box::new(Shape::Str))),
    ])
}

fn test_struct_value() -> Typed {
    Typed::Struct(vec![
        (s("int"), Typed::U32(1)),
        (s("seq"), Typed::Sequence(vec![Typed::Str(s("a")), Typed::Str(s("b"))])),
    ])
}

/// The shape of an enum with variants `Unit`, `Newtype(u32)`,
/// `Tuple(u32, u32)` and `Struct { a: u32 }`.
fn test_enum_shape() -> Shape {
    Shape::Enum(vec![
        (s("Unit"), VariantShape::Unit),
        (s("Newtype"), VariantShape::Newtype(Box::new(Shape::U32))),
        (s("Tuple"), VariantShape::Tuple(vec![Shape::U32, Shape::U32])),
        (s("Struct"), VariantShape::Struct(vec![(s("a"), Shape::U32)])),
    ])
}

#[test]
fn de_test_struct() {
    // {"seq":["a","b"], "int":1}
    let input = Value::Dict(vec![
        (vstr("seq"), Value::List(vec![vstr("a"), vstr("b")])),
        (vstr("int"), Value::Int(1)),
    ]);
    let result = from_py(&test_struct_shape(), &input).unwrap();
    assert_eq!(result, test_struct_value());
}

#[test]
fn test_map() {
    // {"one": 1, "two": 2}
    let input = Value::Dict(vec![
        (vstr("one"), Value::Int(1)),
        (vstr("two"), Value::Int(2)),
    ]);
    let shape = Shape::Mapping(Box::new(Shape::Str), Box::new(Shape::U32));
    let result = from_py(&shape, &input).unwrap();
    let expected = vec![
        (Typed::Str(s("one")), Typed::U32(1)),
        (Typed::Str(s("two")), Typed::U32(2)),
    ];
    match result {
        Typed::Mapping(pairs) => {
            assert_eq!(pairs.len(), 2);
            assert!(pairs.contains(&expected[0]));
            assert!(pairs.contains(&expected[1]));
        }
        other => panic!("expected a mapping, got {:?}", other),
    }
}

#[test]
fn test_bytes_buf() {
    // b"abc", through the owned materialization path
    let input = Value::Bytes(vec![97, 98, 99]);
    let d = serde_py::de::Deserializer::from_py(&input);
    let result = d.deserialize_byte_buf().unwrap();
    assert_eq!(result, vec![97u8, 98u8, 99u8]);
}

#[test]
fn test_bytes_borrowed() {
    // b"abc", through the zero-copy view path
    let input = Value::Bytes(vec![97, 98, 99]);
    let d = serde_py::de::Deserializer::from_py(&input);
    let result = d.deserialize_bytes().unwrap();
    assert_eq!(result, &[97u8, 98u8, 99u8]);
}

#[test]
fn de_test_enum() {
    let shape = test_enum_shape();

    let result = from_py(&shape, &vstr("Unit")).unwrap();
    assert_eq!(result, Typed::UnitVariant(s("Unit")));

    // {"Newtype":1}
    let input = Value::Dict(vec![(vstr("Newtype"), Value::Int(1))]);
    let result = from_py(&shape, &input).unwrap();
    assert_eq!(result, Typed::NewtypeVariant(s("Newtype"), Box::new(Typed::U32(1))));

    // {"Tuple":[1,2]}
    let input = Value::Dict(vec![
        (vstr("Tuple"), Value::List(vec![Value::Int(1), Value::Int(2)])),
    ]);
    let result = from_py(&shape, &input).unwrap();
    assert_eq!(result, Typed::TupleVariant(s("Tuple"), vec![Typed::U32(1), Typed::U32(2)]));

    // {"Struct":{"a":1}}
    let input = Value::Dict(vec![
        (vstr("Struct"), Value::Dict(vec![(vstr("a"), Value::Int(1))])),
    ]);
    let result = from_py(&shape, &input).unwrap();
    assert_eq!(result, Typed::StructVariant(s("Struct"), vec![(s("a"), Typed::U32(1))]));
}

#[test]
fn test_fn_arg() {
    // input = { "int": 1, "seq": ["one", "two"] }
    let input = Value::Dict(vec![
        (vstr("int"), Value::Int(1)),
        (vstr("seq"), Value::List(vec![vstr("one"), vstr("two")])),
    ]);
    let arg = FromPyDeserialize(from_py(&test_struct_shape(), &input).unwrap());
    let arg: Typed = arg.unwrap();
    assert_eq!(
        arg,
        Typed::Struct(vec![
            (s("int"), Typed::U32(1)),
            (s("seq"), Typed::Sequence(vec![Typed::Str(s("one")), Typed::Str(s("two"))])),
        ]),
    );
    let output = to_py(&arg).unwrap();
    assert_eq!(output, input);
}

#[test]
fn ser_test_struct() {
    let obj = to_py(&test_struct_value()).unwrap();
    // assert obj == {'int': 1, 'seq': ['a', 'b']}
    let expected = Value::Dict(vec![
        (vstr("int"), Value::Int(1)),
        (vstr("seq"), Value::List(vec![vstr("a"), vstr("b")])),
    ]);
    assert_eq!(obj, expected);
}

#[test]
fn test_bytes() {
    let obj = to_py(&Typed::Bytes(b"hello".to_vec())).unwrap();
    // assert obj == [104, 101, 108, 108, 111]
    let expected = Value::List(vec![
        Value::Int(104),
        Value::Int(101),
        Value::Int(108),
        Value::Int(108),
        Value::Int(111),
    ]);
    assert_eq!(obj, expected);
}

#[test]
fn ser_test_enum() {
    let u = to_py(&Typed::UnitVariant(s("Unit"))).unwrap();
    // assert u == 'Unit'
    assert_eq!(u, vstr("Unit"));

    let n = to_py(&Typed::NewtypeVariant(s("Newtype"), Box::new(Typed::U32(1)))).unwrap();
    // assert n == {'Newtype': 1}
    assert_eq!(n, Value::Dict(vec![(vstr("Newtype"), Value::Int(1))]));

    let t = to_py(&Typed::TupleVariant(s("Tuple"), vec![Typed::U32(1), Typed::U32(2)])).unwrap();
    // assert t == {'Tuple': (1, 2)}
    assert_eq!(
        t,
        Value::Dict(vec![(vstr("Tuple"), Value::Tuple(vec![Value::Int(1), Value::Int(2)]))]),
    );

    let st = to_py(&Typed::StructVariant(s("Struct"), vec![(s("a"), Typed::U32(1))])).unwrap();
    // assert s == {'Struct': {'a': 1}}
    assert_eq!(
        st,
        Value::Dict(vec![(vstr("Struct"), Value::Dict(vec![(vstr("a"), Value::Int(1))]))]),
    );
}

#[test]
fn test_struct_round_trip() {
    // Scenario: serialize {int: 1, seq: ["a","b"]}, then deserialize it back.
    let typed = test_struct_value();
    let dynamic = to_py(&typed).unwrap();
    let back = from_py(&test_struct_shape(), &dynamic).unwrap();
    assert_eq!(back, typed);
}

#[test]
fn test_enum_tuple_round_trip() {
    // Scenario: Tuple(1, 2) -> {"Tuple": [1, 2]} -> Tuple(1, 2).
    let typed = Typed::TupleVariant(s("Tuple"), vec![Typed::U32(1), Typed::U32(2)]);
    let dynamic = to_py(&typed).unwrap();
    let back = from_py(&test_enum_shape(), &dynamic).unwrap();
    assert_eq!(back, typed);
}

#[test]
fn test_map_key_order() {
    // The same entries in either order fill the struct identically.
    let forward = Value::Dict(vec![
        (vstr("int"), Value::Int(1)),
        (vstr("seq"), Value::List(vec![vstr("a"), vstr("b")])),
    ]);
    let backward = Value::Dict(vec![
        (vstr("seq"), Value::List(vec![vstr("a"), vstr("b")])),
        (vstr("int"), Value::Int(1)),
    ]);
    let shape = test_struct_shape();
    let a = from_py(&shape, &forward).unwrap();
    let b = from_py(&shape, &backward).unwrap();
    assert_eq!(a, b);
    assert_eq!(a, test_struct_value());
}

#[test]
fn test_empty_sequence() {
    // Scenario: an empty sequence round-trips through an empty dynamic list.
    let typed = Typed::Sequence(vec![]);
    let dynamic = to_py(&typed).unwrap();
    assert_eq!(dynamic, Value::List(vec![]));
    let shape = Shape::Sequence(Box::new(Shape::U32));
    let back = from_py(&shape, &dynamic).unwrap();
    assert_eq!(back, typed);
}

#[test]
fn test_bytes_both_paths() {
    // Scenario: b"abc" deserializes to [97, 98, 99] via the borrowed view
    // and via the owned materialization from an integer sequence.
    let buffer = Value::Bytes(vec![97, 98, 99]);
    let result = from_py(&Shape::Bytes, &buffer).unwrap();
    assert_eq!(result, Typed::Bytes(vec![97, 98, 99]));

    let ints = Value::List(vec![Value::Int(97), Value::Int(98), Value::Int(99)]);
    let result = from_py(&Shape::Bytes, &ints).unwrap();
    assert_eq!(result, Typed::Bytes(vec![97, 98, 99]));
}

#[test]
fn test_option_round_trip() {
    let shape = Shape::Opt(Box::new(Shape::U32));
    let absent = Typed::Opt(None);
    let dynamic = to_py(&absent).unwrap();
    assert_eq!(dynamic, Value::Null);
    assert_eq!(from_py(&shape, &dynamic).unwrap(), absent);

    let present = Typed::Opt(Some(Box::new(Typed::U32(7))));
    let dynamic = to_py(&present).unwrap();
    assert_eq!(dynamic, Value::Int(7));
    assert_eq!(from_py(&shape, &dynamic).unwrap(), present);
}

#[test]
fn test_numeric_widening() {
    // Every narrower width serializes to the same dynamic integer.
    assert_eq!(to_py(&Typed::I8(-5)).unwrap(), Value::Int(-5));
    assert_eq!(to_py(&Typed::I64(-5)).unwrap(), Value::Int(-5));
    assert_eq!(to_py(&Typed::U16(300)).unwrap(), Value::Int(300));
    assert_eq!(to_py(&Typed::U64(300)).unwrap(), Value::Int(300));
    // Narrowing succeeds exactly when the value fits.
    assert_eq!(from_py(&Shape::U8, &Value::Int(255)).unwrap(), Typed::U8(255));
    assert!(from_py(&Shape::U8, &Value::Int(256)).is_err());
    assert_eq!(from_py(&Shape::I8, &Value::Int(-128)).unwrap(), Typed::I8(-128));
    assert!(from_py(&Shape::I8, &Value::Int(-129)).is_err());
}

#[test]
fn test_char_round_trip() {
    let dynamic = to_py(&Typed::Char('x')).unwrap();
    assert_eq!(dynamic, vstr("x"));
    assert_eq!(from_py(&Shape::Char, &dynamic).unwrap(), Typed::Char('x'));
}

#[test]
fn test_nested_round_trip() {
    // {"a": [true, null, false, 1, {"nested": []}], "b": "ok"}
    let typed = Typed::Struct(vec![
        (
            s("a"),
            Typed::Tuple(vec![
                Typed::Bool(true),
                Typed::Opt(None),
                Typed::Bool(false),
                Typed::U64(1),
                Typed::Struct(vec![(s("nested"), Typed::Sequence(vec![]))]),
            ]),
        ),
        (s("b"), Typed::Str(s("ok"))),
    ]);
    let shape = Shape::Struct(vec![
        (
            s("a"),
            Shape::Tuple(vec![
                Shape::Bool,
                Shape::Opt(Box::new(Shape::U64)),
                Shape::Bool,
                Shape::U64,
                Shape::Struct(vec![(s("nested"), Shape::Sequence(Box::new(Shape::U64)))]),
            ]),
        ),
        (s("b"), Shape::Str),
    ]);
    let dynamic = to_py(&typed).unwrap();
    let back = from_py(&shape, &dynamic).unwrap();
    assert_eq!(back, typed);
}

#[test]
fn test_any_inference() {
    // Shape inference probes null, string, boolean, unsigned integer,
    // sequence, mapping, in that order.
    assert_eq!(from_py(&Shape::Any, &Value::Null).unwrap(), Typed::Unit);
    assert_eq!(from_py(&Shape::Any, &vstr("hi")).unwrap(), Typed::Str(s("hi")));
    assert_eq!(from_py(&Shape::Any, &Value::Bool(true)).unwrap(), Typed::Bool(true));
    assert_eq!(from_py(&Shape::Any, &Value::Int(3)).unwrap(), Typed::U64(3));
    assert_eq!(
        from_py(&Shape::Any, &Value::List(vec![Value::Int(1)])).unwrap(),
        Typed::Sequence(vec![Typed::U64(1)]),
    );
    assert_eq!(
        from_py(&Shape::Any, &Value::Dict(vec![(vstr("k"), Value::Int(1))])).unwrap(),
        Typed::Mapping(vec![(Typed::Str(s("k")), Typed::U64(1))]),
    );
}
