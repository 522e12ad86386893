use asyncapi::ChannelBinding;
use asyncapi::DecodeError;
use asyncapi::OperationBinding;
use asyncapi::Value;
use asyncapi::channel_binding::IBMMQChannelBindingQueue;
use asyncapi::operation_binding::MQTTOperationBinding;

fn key(k: &str, v: Value) -> (String, Value) {
    (k.to_string(), v)
}

fn text(s: &str) -> Value {
    Value::Str(s.to_string())
}

#[test]
fn test_kafka_operation_binding_dispatch() {
    let v = Value::Object(vec![key(
        "kafka",
        Value::Object(vec![
            key("groupId", Value::Object(vec![key("type", text("string"))])),
            key("bindingVersion", text("0.1.0")),
        ]),
    )]);
    let b = OperationBinding::decode(&v).expect("binding must decode");
    let kafka = b.kafka.expect("the kafka slot must be populated");
    let group_id = kafka.group_id.expect("groupId must be read as a schema");
    assert_eq!(group_id.schema_type, Some("string".to_string()));
    assert_eq!(kafka.binding_version, Some("0.1.0".to_string()));
    assert!(b.http.is_none());
    assert!(b.ws.is_none());
    assert!(b.amqp.is_none());
    assert!(b.mqtt.is_none());
    assert!(b.nats.is_none());
    assert!(b.extensions.is_empty());
}

#[test]
fn test_binding_version_outside_a_slot_is_an_extension() {
    // A `bindingVersion` sibling of the protocol slots is not a declared
    // field of the dispatch object itself; it is preserved as an extension.
    let v = Value::Object(vec![
        key("kafka", Value::Object(vec![])),
        key("bindingVersion", text("0.1.0")),
    ]);
    let b = OperationBinding::decode(&v).expect("binding must decode");
    assert!(b.kafka.is_some());
    assert_eq!(b.extensions, vec![key("bindingVersion", text("0.1.0"))]);
}

#[test]
fn test_unknown_protocol_is_forward_compatible() {
    let v = Value::Object(vec![key(
        "zephyr",
        Value::Object(vec![key("channel", text("news"))]),
    )]);
    let b = OperationBinding::decode(&v).expect("unknown protocols must not fail the decode");
    assert_eq!(
        b.extensions,
        vec![key("zephyr", Value::Object(vec![key("channel", text("news"))]))]
    );
    let back = b.encode();
    assert!(back.deep_eq(&v));
}

#[test]
fn test_reserved_binding_accepts_and_drops_fields() {
    // A reserved protocol object must not contain any properties; whatever
    // it does contain is accepted and not kept.
    let v = Value::Object(vec![key("http", Value::Object(vec![key("x", Value::Int(1))]))]);
    let b = ChannelBinding::decode(&v).expect("binding must decode");
    assert!(b.http.is_some());
    let back = b.encode();
    assert!(back.deep_eq(&Value::Object(vec![key("http", Value::Object(vec![]))])));
}

#[test]
fn test_amqp_channel_binding_nests_exchange_and_queue() {
    let v = Value::Object(vec![key(
        "amqp",
        Value::Object(vec![
            key("is", text("routingKey")),
            key(
                "exchange",
                Value::Object(vec![
                    key("name", text("myExchange")),
                    key("type", text("topic")),
                    key("durable", Value::Bool(true)),
                ]),
            ),
            key("bindingVersion", text("0.2.0")),
        ]),
    )]);
    let b = ChannelBinding::decode(&v).expect("binding must decode");
    let amqp = b.amqp.as_ref().expect("the amqp slot must be populated");
    assert_eq!(amqp.is_, Some("routingKey".to_string()));
    let exchange = amqp.exchange.as_ref().expect("the exchange must be read");
    assert_eq!(exchange.name, Some("myExchange".to_string()));
    assert_eq!(exchange.typ, Some("topic".to_string()));
    assert_eq!(exchange.durable, Some(true));
    assert!(amqp.queue.is_none());
    assert_eq!(amqp.binding_version, Some("0.2.0".to_string()));
    assert!(b.encode().deep_eq(&v));
}

#[test]
fn test_ibmmq_queue_requires_object_name() {
    let v = Value::Object(vec![key("exclusive", Value::Bool(true))]);
    assert_eq!(
        IBMMQChannelBindingQueue::decode(&v),
        Err(DecodeError::RequiredFieldMissing)
    );
}

#[test]
fn test_integer_field_must_fit_32_bits() {
    let v = Value::Object(vec![key("qos", Value::Int(1))]);
    let b = MQTTOperationBinding::decode(&v).expect("binding must decode");
    assert_eq!(b.qos, Some(1));
    let too_big = Value::Object(vec![key("qos", Value::Int(1 << 40))]);
    assert_eq!(
        MQTTOperationBinding::decode(&too_big),
        Err(DecodeError::StructuralMismatch)
    );
}

#[test]
fn test_amqp_operation_binding_round_trip() {
    let v = Value::Object(vec![
        key("expiration", Value::Int(100000)),
        key("userId", text("guest")),
        key("cc", Value::List(vec![text("user.logs")])),
        key("priority", Value::Int(10)),
        key("deliveryMode", Value::Int(2)),
        key("mandatory", Value::Bool(false)),
        key("bcc", Value::List(vec![text("external.audit")])),
        key("replyTo", text("user.signedup")),
        key("timestamp", Value::Bool(true)),
        key("ack", Value::Bool(false)),
        key("bindingVersion", text("0.2.0")),
    ]);
    let b = OperationBinding::decode(&Value::Object(vec![key("amqp", v.deep_clone())]))
        .expect("binding must decode");
    let amqp = b.amqp.as_ref().expect("the amqp slot must be populated");
    assert_eq!(amqp.cc, vec!["user.logs".to_string()]);
    assert_eq!(amqp.delivery_mode, Some(2));
    let back = b.encode();
    assert!(back.deep_eq(&Value::Object(vec![key("amqp", v)])));
}
