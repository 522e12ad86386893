use asyncapi::AsyncAPI;
use asyncapi::Message;
use asyncapi::Schema;
use asyncapi::Value;

fn key(k: &str, v: Value) -> (String, Value) {
    (k.to_string(), v)
}

fn text(s: &str) -> Value {
    Value::Str(s.to_string())
}

fn sample_document() -> Value {
    Value::Object(vec![
        key("asyncapi", text("2.3.0")),
        key(
            "info",
            Value::Object(vec![
                key("title", text("Streetlights")),
                key("version", text("1.0.0")),
                key("description", text("Manages the lights in the city.")),
            ]),
        ),
        key(
            "servers",
            Value::Object(vec![key(
                "production",
                Value::Object(vec![
                    key("url", text("broker.example.com")),
                    key("protocol", text("mqtt")),
                ]),
            )]),
        ),
        key(
            "channels",
            Value::Object(vec![key(
                "light/measured",
                Value::Object(vec![key(
                    "publish",
                    Value::Object(vec![
                        key("operationId", text("onLightMeasured")),
                        key(
                            "message",
                            Value::Object(vec![
                                key(
                                    "payload",
                                    Value::Object(vec![
                                        key("type", text("object")),
                                        key("required", Value::List(vec![text("lumens")])),
                                        key(
                                            "properties",
                                            Value::Object(vec![key(
                                                "lumens",
                                                Value::Object(vec![key(
                                                    "type",
                                                    text("integer"),
                                                )]),
                                            )]),
                                        ),
                                    ]),
                                ),
                                key("name", text("lightMeasured")),
                                key("x-sample-rate", Value::Int(5)),
                            ]),
                        ),
                    ]),
                )]),
            )]),
        ),
        key("x-internal", Value::Bool(true)),
    ])
}

#[test]
fn test_document_round_trip() {
    let wire = sample_document();
    let doc = AsyncAPI::decode(&wire).expect("document must decode");
    let emitted = doc.encode();
    let doc_again = AsyncAPI::decode(&emitted).expect("re-decoding must succeed");
    assert_eq!(doc, doc_again);
    assert!(doc_again.encode().deep_eq(&emitted));
    assert!(emitted.deep_eq(&wire));
}

#[test]
fn test_schema_round_trip_with_compositions() {
    let wire = Value::Object(vec![
        key("title", text("Pet")),
        key("enum", Value::List(vec![text("a"), Value::Int(1), Value::Null])),
        key(
            "items",
            Value::Object(vec![key("$ref", text("#/components/schemas/Leg"))]),
        ),
        key(
            "oneOf",
            Value::List(vec![
                Value::Object(vec![key("$ref", text("#/components/schemas/Dog"))]),
                Value::Object(vec![key("type", text("string"))]),
            ]),
        ),
        key("not", Value::Object(vec![key("type", text("integer"))])),
        key(
            "discriminator",
            Value::Object(vec![key("propertyName", text("petType"))]),
        ),
        key("x-vendor", text("acme")),
    ]);
    let s = Schema::decode(&wire).expect("schema must decode");
    assert_eq!(s.one_of.len(), 2);
    assert!(s.encode().deep_eq(&wire));
}

#[test]
fn test_message_extensions_keep_their_order() {
    let wire = Value::Object(vec![
        key("name", text("m")),
        key("x-c", Value::Int(3)),
        key("x-a", Value::Int(1)),
        key("x-b", Value::Int(2)),
    ]);
    let m = Message::decode(&wire).expect("message must decode");
    assert_eq!(
        m.extensions,
        vec![
            key("x-c", Value::Int(3)),
            key("x-a", Value::Int(1)),
            key("x-b", Value::Int(2)),
        ]
    );
    let emitted = m.encode();
    let m2 = Message::decode(&emitted).expect("re-decoding must succeed");
    assert_eq!(m2.extensions, m.extensions);
    assert!(emitted.deep_eq(&wire));
}

#[test]
fn test_empty_aggregates_are_omitted_on_encode() {
    let wire = Value::Object(vec![key("type", text("object"))]);
    let s = Schema::decode(&wire).expect("schema must decode");
    assert!(s.required.is_empty());
    assert!(s.properties.is_empty());
    let emitted = s.encode();
    match &emitted {
        Value::Object(entries) => {
            assert_eq!(entries.len(), 1);
            assert_eq!(entries[0].0, "type".to_string());
        },
        _ => panic!("a schema must encode to an object"),
    }
}

#[test]
fn test_message_examples_round_trip_by_name() {
    let wire = Value::Object(vec![key(
        "examples",
        Value::Object(vec![
            key("first", Value::Object(vec![key("lumens", Value::Int(3))])),
            key("second", Value::Null),
        ]),
    )]);
    let m = Message::decode(&wire).expect("message must decode");
    assert_eq!(m.examples.len(), 2);
    assert_eq!(m.examples[0].0, "first".to_string());
    assert!(m.encode().deep_eq(&wire));
}
