use asyncapi::DecodeError;
use asyncapi::Message;
use asyncapi::Payload;
use asyncapi::RefOr;
use asyncapi::Schema;
use asyncapi::Value;
use asyncapi::schema::decode_ref_or_schema;
use asyncapi::vec_or_single;
use asyncapi::VecOrSingle;

fn key(k: &str, v: Value) -> (String, Value) {
    (k.to_string(), v)
}

fn text(s: &str) -> Value {
    Value::Str(s.to_string())
}

#[test]
fn test_reference_is_left_unresolved() {
    let v = Value::Object(vec![key("$ref", text("#/components/schemas/User"))]);
    let r = decode_ref_or_schema(&v).expect("reference must decode");
    match r {
        RefOr::Ref(rf) => assert_eq!(rf.ref_location, "#/components/schemas/User".to_string()),
        RefOr::T(_) => panic!("a $ref object must decode as a reference"),
    }
}

#[test]
fn test_reference_shape_takes_priority() {
    // A schema object could also swallow a `$ref` key into its extensions,
    // but the reference shape is tried first, always.
    let v = Value::Object(vec![key("$ref", text("#/x"))]);
    let r = decode_ref_or_schema(&v).expect("reference must decode");
    assert!(matches!(r, RefOr::Ref(_)));
}

#[test]
fn test_bare_number_matches_no_union_shape() {
    assert_eq!(
        decode_ref_or_schema(&Value::Int(42)),
        Err(DecodeError::StructuralMismatch)
    );
}

#[test]
fn test_ref_with_extra_keys_is_not_a_reference() {
    // The reference shape holds exactly the reserved key; anything else is
    // read as an inline schema, with the `$ref` key kept as an extension.
    let v = Value::Object(vec![
        key("$ref", text("#/x")),
        key("type", text("string")),
    ]);
    let r = decode_ref_or_schema(&v).expect("schema must decode");
    match r {
        RefOr::T(s) => {
            assert_eq!(s.schema_type, Some("string".to_string()));
            assert_eq!(s.extensions, vec![key("$ref", text("#/x"))]);
        },
        RefOr::Ref(_) => panic!("an object with extra keys is not a reference"),
    }
}

#[test]
fn test_ref_constructors() {
    let r: RefOr<Schema> = RefOr::ref_("#/components/schemas/A");
    match r {
        RefOr::Ref(rf) => assert_eq!(rf.ref_location, "#/components/schemas/A".to_string()),
        RefOr::T(_) => panic!("ref_ must build the reference variant"),
    }
    let boxed: RefOr<Box<i32>> = RefOr::boxed_item(7);
    match boxed.unbox() {
        RefOr::T(x) => assert_eq!(x, 7),
        RefOr::Ref(_) => panic!("boxed_item must build the inline variant"),
    }
}

#[test]
fn test_vec_or_single_normalizes_to_vec() {
    let single = VecOrSingle::Single(5);
    assert_eq!(single.into_vec(), vec![5]);
    let many = VecOrSingle::Many(vec![1, 2]);
    assert_eq!(many.into_vec(), vec![1, 2]);
}

#[test]
fn test_vec_or_single_asymmetry() {
    // Decoding a one-element list, then encoding, yields the bare element:
    // the round trip over the wire text is intentionally not the identity.
    let wire = Value::List(vec![text("a")]);
    let decoded = vec_or_single::deserialize(&wire);
    assert_eq!(decoded, vec![text("a")]);
    let encoded = vec_or_single::serialize(&decoded);
    assert_eq!(encoded, text("a"));
    assert!(!encoded.deep_eq(&wire));
}

#[test]
fn test_vec_or_single_keeps_other_lengths() {
    let empty: Vec<Value> = vec![];
    assert_eq!(vec_or_single::serialize(&empty), Value::List(vec![]));
    let two = vec![Value::Int(1), Value::Int(2)];
    assert_eq!(
        vec_or_single::serialize(&two),
        Value::List(vec![Value::Int(1), Value::Int(2)])
    );
    assert_eq!(vec_or_single::deserialize(&Value::Int(9)), vec![Value::Int(9)]);
}

#[test]
fn test_payload_prefers_schema_shape() {
    let v = Value::Object(vec![key(
        "payload",
        Value::Object(vec![key("type", text("object"))]),
    )]);
    let m = Message::decode(&v).expect("message must decode");
    match m.payload {
        Some(Payload::Schema(s)) => assert_eq!(s.schema_type, Some("object".to_string())),
        _ => panic!("an object payload must decode as a schema"),
    }
}

#[test]
fn test_payload_falls_back_to_untyped_capture() {
    let v = Value::Object(vec![key("payload", Value::Int(42))]);
    let m = Message::decode(&v).expect("message must decode");
    match m.payload {
        Some(Payload::Any(x)) => assert_eq!(x, Value::Int(42)),
        _ => panic!("a non-schema payload must be captured untyped"),
    }
}
