use jogs::ops::{
    decode_arguments, decode_call, decode_text, encode_keys, encode_values, resolve_function,
    Binding, BridgeError,
};
use jogs::value::MyJSValue;
use jogs::wire::{decode_value, encode_value, DecodeFault, WireValue};

fn text(s: &str) -> MyJSValue {
    MyJSValue::String(s.to_string())
}

fn round_trip(v: &MyJSValue) -> Result<MyJSValue, DecodeFault> {
    decode_value(&encode_value(v))
}

#[test]
fn scalars_round_trip() {
    let values = vec![
        MyJSValue::Undefined,
        MyJSValue::Null,
        MyJSValue::Bool(true),
        MyJSValue::Bool(false),
        MyJSValue::Int(0),
        MyJSValue::Int(-7),
        MyJSValue::Int(i32::MIN),
        MyJSValue::Int(i32::MAX),
        MyJSValue::Float(1.5f64.to_bits()),
        MyJSValue::Float(2.0f64.to_bits()),
        text(""),
        text("héllo"),
        MyJSValue::ArrayBuffer(vec![]),
        MyJSValue::ArrayBuffer(vec![0, 1, 255]),
    ];
    for v in values {
        assert_eq!(round_trip(&v), Ok(v));
    }
}

#[test]
fn nested_values_round_trip() {
    let v = MyJSValue::Object(vec![
        ("list".to_string(), MyJSValue::Array(vec![MyJSValue::Int(1), text("two"), MyJSValue::Null])),
        (
            "inner".to_string(),
            MyJSValue::Object(vec![("bytes".to_string(), MyJSValue::ArrayBuffer(vec![9, 8]))]),
        ),
        ("empty".to_string(), MyJSValue::Array(vec![])),
    ]);
    let expected = MyJSValue::Object(vec![
        ("list".to_string(), MyJSValue::Array(vec![MyJSValue::Int(1), text("two"), MyJSValue::Null])),
        (
            "inner".to_string(),
            MyJSValue::Object(vec![("bytes".to_string(), MyJSValue::ArrayBuffer(vec![9, 8]))]),
        ),
        ("empty".to_string(), MyJSValue::Array(vec![])),
    ]);
    assert_eq!(round_trip(&v), Ok(expected));
}

#[test]
fn deep_nesting_round_trips() {
    let mut v = MyJSValue::Int(1);
    for _ in 0..200 {
        v = MyJSValue::Array(vec![v]);
    }
    let mut expected = MyJSValue::Int(1);
    for _ in 0..200 {
        expected = MyJSValue::Array(vec![expected]);
    }
    assert_eq!(round_trip(&v), Ok(expected));
}

#[test]
fn encoding_keeps_shapes_apart() {
    assert_eq!(encode_value(&MyJSValue::Int(5)), WireValue::Integer(5));
    assert_eq!(
        encode_value(&MyJSValue::Float(5.0f64.to_bits())),
        WireValue::Float(5.0f64.to_bits())
    );
    assert_eq!(encode_value(&text("5")), WireValue::Text("5".to_string()));
    assert_eq!(encode_value(&MyJSValue::ArrayBuffer(vec![5])), WireValue::Bytes(vec![5]));
    assert_eq!(
        encode_value(&MyJSValue::Array(vec![MyJSValue::Int(5)])),
        WireValue::Array(vec![WireValue::Integer(5)])
    );
    assert_eq!(
        encode_value(&MyJSValue::Object(vec![("k".to_string(), MyJSValue::Int(5))])),
        WireValue::Mapping(vec![(WireValue::Text("k".to_string()), WireValue::Integer(5))])
    );
}

#[test]
fn undefined_and_null_stay_apart() {
    assert_eq!(encode_value(&MyJSValue::Undefined), WireValue::Undefined);
    assert_eq!(encode_value(&MyJSValue::Null), WireValue::Null);
    assert_eq!(decode_value(&WireValue::Undefined), Ok(MyJSValue::Undefined));
    assert_eq!(decode_value(&WireValue::Null), Ok(MyJSValue::Null));
    assert_eq!(round_trip(&MyJSValue::Undefined), Ok(MyJSValue::Undefined));
    assert_ne!(round_trip(&MyJSValue::Undefined), Ok(MyJSValue::Null));
}

#[test]
fn int_range_boundary() {
    assert_eq!(decode_value(&WireValue::Integer(2147483647)), Ok(MyJSValue::Int(2147483647)));
    assert_eq!(decode_value(&WireValue::Integer(-2147483648)), Ok(MyJSValue::Int(-2147483648)));
    assert_eq!(
        decode_value(&WireValue::Integer(2147483648)),
        Err(DecodeFault::IntegerOutOfRange(2147483648))
    );
    assert_eq!(
        decode_value(&WireValue::Integer(-2147483649)),
        Err(DecodeFault::IntegerOutOfRange(-2147483649))
    );
}

#[test]
fn floats_stay_floats() {
    let neg_zero = MyJSValue::Float((-0.0f64).to_bits());
    assert_eq!(round_trip(&neg_zero), Ok(MyJSValue::Float((-0.0f64).to_bits())));
    assert_ne!(round_trip(&neg_zero), Ok(MyJSValue::Int(0)));
    let big = MyJSValue::Float(2147483648.0f64.to_bits());
    assert_eq!(round_trip(&big), Ok(MyJSValue::Float(2147483648.0f64.to_bits())));
    let nan = MyJSValue::Float(f64::NAN.to_bits());
    assert_eq!(round_trip(&nan), Ok(MyJSValue::Float(f64::NAN.to_bits())));
}

#[test]
fn non_text_key_is_refused() {
    let w = WireValue::Mapping(vec![(WireValue::Integer(1), WireValue::Null)]);
    assert_eq!(decode_value(&w), Err(DecodeFault::NonTextKey));
}

#[test]
fn duplicate_key_is_refused() {
    let w = WireValue::Mapping(vec![
        (WireValue::Text("a".to_string()), WireValue::Integer(1)),
        (WireValue::Text("b".to_string()), WireValue::Integer(2)),
        (WireValue::Text("a".to_string()), WireValue::Integer(3)),
    ]);
    assert_eq!(decode_value(&w), Err(DecodeFault::DuplicateKey("a".to_string())));
}

#[test]
fn tagged_item_is_refused() {
    let w = WireValue::Array(vec![WireValue::Tag(2, Box::new(WireValue::Bytes(vec![1])))]);
    assert_eq!(decode_value(&w), Err(DecodeFault::Tagged(2)));
}

#[test]
fn nested_fault_is_reported() {
    let w = WireValue::Array(vec![
        WireValue::Integer(1),
        WireValue::Mapping(vec![(WireValue::Text("x".to_string()), WireValue::Integer(1 << 40))]),
    ]);
    assert_eq!(decode_value(&w), Err(DecodeFault::IntegerOutOfRange(1 << 40)));
}

#[test]
fn invalid_utf8_is_refused() {
    assert_eq!(decode_text(&[0x31, 0x2b, 0xff]), Err(BridgeError::InputNotUtf8));
    assert_eq!(decode_text(&[0xc3, 0x28]), Err(BridgeError::InputNotUtf8));
}

#[test]
fn valid_utf8_is_read() {
    assert_eq!(decode_text(b"1+1"), Ok("1+1".to_string()));
    assert_eq!(decode_text("\"a\"+\"é\"".as_bytes()), Ok("\"a\"+\"é\"".to_string()));
    assert_eq!(decode_text(b""), Ok(String::new()));
}

#[test]
fn missing_function_is_not_found() {
    let name = "doesNotExist".to_string();
    assert_eq!(
        resolve_function(&name, Binding::Absent),
        Err(BridgeError::FunctionNotFound("doesNotExist".to_string()))
    );
    assert_eq!(
        resolve_function(&name, Binding::NotCallable),
        Err(BridgeError::FunctionNotFound("doesNotExist".to_string()))
    );
    assert_eq!(resolve_function(&"add".to_string(), Binding::Callable), Ok(()));
}

#[test]
fn global_keys_are_encoded_in_order() {
    let keys = vec!["a".to_string(), "b".to_string()];
    assert_eq!(
        encode_keys(&keys),
        WireValue::Array(vec![WireValue::Text("a".to_string()), WireValue::Text("b".to_string())])
    );
    assert_eq!(encode_keys(&vec![]), WireValue::Array(vec![]));
}

#[test]
fn call_arguments_round_trip() {
    let w = encode_values(vec![MyJSValue::Int(2), MyJSValue::Int(3)]);
    assert_eq!(w, WireValue::Array(vec![WireValue::Integer(2), WireValue::Integer(3)]));
    assert_eq!(decode_arguments(&w), Ok(vec![MyJSValue::Int(2), MyJSValue::Int(3)]));
    let w = encode_values(vec![MyJSValue::Undefined, MyJSValue::Null]);
    assert_eq!(decode_arguments(&w), Ok(vec![MyJSValue::Undefined, MyJSValue::Null]));
}

#[test]
fn arguments_must_be_a_sequence() {
    assert_eq!(
        decode_arguments(&WireValue::Integer(2)),
        Err(BridgeError::Decode(DecodeFault::NotASequence))
    );
    assert_eq!(
        decode_arguments(&WireValue::Array(vec![WireValue::Tag(0, Box::new(WireValue::Null))])),
        Err(BridgeError::Decode(DecodeFault::Tagged(0)))
    );
}

#[test]
fn call_request_is_assembled() {
    let args = encode_values(vec![MyJSValue::Int(2), MyJSValue::Int(3)]);
    let req = decode_call(vec![1, 2, 3], b"add", &args).unwrap();
    assert_eq!(req.bytecode, vec![1, 2, 3]);
    assert_eq!(req.function_name, "add");
    assert_eq!(req.arguments, vec![MyJSValue::Int(2), MyJSValue::Int(3)]);
}

#[test]
fn call_request_checks_name_first() {
    let bad = WireValue::Integer(1);
    assert_eq!(decode_call(vec![], &[0xff], &bad), Err(BridgeError::InputNotUtf8));
    assert_eq!(
        decode_call(vec![], b"add", &bad),
        Err(BridgeError::Decode(DecodeFault::NotASequence))
    );
}

#[test]
fn undefined_survives_inside_collections() {
    let v = MyJSValue::Array(vec![
        MyJSValue::Undefined,
        MyJSValue::Object(vec![("u".to_string(), MyJSValue::Undefined)]),
    ]);
    let expected = MyJSValue::Array(vec![
        MyJSValue::Undefined,
        MyJSValue::Object(vec![("u".to_string(), MyJSValue::Undefined)]),
    ]);
    assert_eq!(round_trip(&v), Ok(expected));
}

#[test]
fn object_keys_come_back_intact() {
    let v = MyJSValue::Object(vec![
        ("b".to_string(), MyJSValue::Int(2)),
        ("a".to_string(), MyJSValue::Int(1)),
    ]);
    let expected = MyJSValue::Object(vec![
        ("b".to_string(), MyJSValue::Int(2)),
        ("a".to_string(), MyJSValue::Int(1)),
    ]);
    assert_eq!(round_trip(&v), Ok(expected));
}

#[test]
fn duplicate_keys_encode_but_do_not_decode() {
    let v = MyJSValue::Object(vec![
        ("k".to_string(), MyJSValue::Int(1)),
        ("k".to_string(), MyJSValue::Int(2)),
    ]);
    assert_eq!(round_trip(&v), Err(DecodeFault::DuplicateKey("k".to_string())));
}

#[test]
fn decodable_items_re_encode_to_themselves() {
    let w = WireValue::Mapping(vec![
        (WireValue::Text("b".to_string()), WireValue::Bytes(vec![1, 2])),
        (
            WireValue::Text("a".to_string()),
            WireValue::Array(vec![WireValue::Float(0.25f64.to_bits()), WireValue::Bool(true)]),
        ),
    ]);
    let v = decode_value(&w).unwrap();
    let expected = WireValue::Mapping(vec![
        (WireValue::Text("b".to_string()), WireValue::Bytes(vec![1, 2])),
        (
            WireValue::Text("a".to_string()),
            WireValue::Array(vec![WireValue::Float(0.25f64.to_bits()), WireValue::Bool(true)]),
        ),
    ]);
    assert_eq!(encode_value(&v), expected);
}
