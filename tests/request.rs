use jsonrpc_request::{Call, Id, JsonValue, MethodCall, Notification, Params, Request, Version};

fn text(s: &str) -> JsonValue {
    JsonValue::Str(s.to_string())
}

fn num(n: i128) -> JsonValue {
    JsonValue::Integer(n)
}

fn obj(members: Vec<(&str, JsonValue)>) -> JsonValue {
    JsonValue::Object(members.into_iter().map(|(k, v)| (k.to_string(), v)).collect())
}

fn update_call(id: Option<JsonValue>) -> JsonValue {
    let mut members = vec![
        ("jsonrpc", text("2.0")),
        ("method", text("update")),
        ("params", JsonValue::Array(vec![num(1), num(2)])),
    ];
    if let Some(id) = id {
        members.push(("id", id));
    }
    obj(members)
}

#[test]
fn notification_deserialize() {
    let deserialized = Notification::probe(update_call(None)).unwrap();
    assert_eq!(deserialized, Notification {
        jsonrpc: Version::V2,
        method: "update".to_string(),
        params: Some(Params::Array(vec![JsonValue::Integer(1), JsonValue::Integer(2)])),
    });

    let value = obj(vec![("jsonrpc", text("2.0")), ("method", text("foobar"))]);
    let deserialized = Notification::probe(value).unwrap();
    assert_eq!(deserialized, Notification {
        jsonrpc: Version::V2,
        method: "foobar".to_string(),
        params: None,
    });

    let deserialized = Notification::probe(update_call(Some(num(1))));
    assert!(deserialized.is_none())
}

#[test]
fn call_deserialize_batch() {
    let value = JsonValue::Array(vec![
        num(1),
        update_call(Some(num(1))),
        obj(vec![
            ("jsonrpc", text("2.0")),
            ("method", text("update")),
            ("params", JsonValue::Array(vec![num(1)])),
        ]),
    ]);
    let deserialized = Request::resolve(value);
    assert_eq!(deserialized, Request::Batch(vec![
        Call::Invalid,
        Call::MethodCall(MethodCall {
            jsonrpc: Version::V2,
            method: "update".to_owned(),
            params: Some(Params::Array(vec![JsonValue::Integer(1), JsonValue::Integer(2)])),
            id: Id::Num(1),
        }),
        Call::Notification(Notification {
            jsonrpc: Version::V2,
            method: "update".to_owned(),
            params: Some(Params::Array(vec![JsonValue::Integer(1)])),
        }),
    ]))
}

#[test]
fn notification_with_params_classifies_as_notification() {
    assert_eq!(Call::classify(update_call(None)), Call::Notification(Notification {
        jsonrpc: Version::V2,
        method: "update".to_string(),
        params: Some(Params::Array(vec![num(1), num(2)])),
    }));
}

#[test]
fn notification_without_params_classifies_as_notification() {
    let value = obj(vec![("method", text("ping")), ("jsonrpc", text("2.0"))]);
    assert_eq!(Call::classify(value), Call::Notification(Notification {
        jsonrpc: Version::V2,
        method: "ping".to_string(),
        params: None,
    }));
}

#[test]
fn named_params_are_kept() {
    let value = obj(vec![
        ("jsonrpc", text("2.0")),
        ("method", text("sum")),
        ("params", obj(vec![("a", num(3))])),
    ]);
    assert_eq!(Call::classify(value), Call::Notification(Notification {
        jsonrpc: Version::V2,
        method: "sum".to_string(),
        params: Some(Params::Object(vec![("a".to_string(), num(3))])),
    }));
}

#[test]
fn method_call_keeps_each_kind_of_id() {
    let ids = vec![
        (text("abc"), Id::Str("abc".to_string())),
        (num(-7), Id::Num(-7)),
        (JsonValue::Null, Id::Null),
    ];
    for (raw, id) in ids {
        assert_eq!(Call::classify(update_call(Some(raw))), Call::MethodCall(MethodCall {
            jsonrpc: Version::V2,
            method: "update".to_string(),
            params: Some(Params::Array(vec![num(1), num(2)])),
            id,
        }));
    }
}

#[test]
fn method_call_probe_needs_an_id() {
    assert!(MethodCall::probe(update_call(None)).is_none());
    assert!(MethodCall::probe(update_call(Some(num(5)))).is_some());
}

#[test]
fn adding_id_turns_notification_into_method_call() {
    assert!(matches!(Call::classify(update_call(None)), Call::Notification(_)));
    assert!(matches!(Call::classify(update_call(Some(num(9)))), Call::MethodCall(_)));
}

#[test]
fn id_of_another_kind_is_invalid() {
    assert_eq!(Call::classify(update_call(Some(JsonValue::Bool(true)))), Call::Invalid);
    assert_eq!(Call::classify(update_call(Some(JsonValue::Decimal("1.5".to_string())))), Call::Invalid);
    assert_eq!(Call::classify(update_call(Some(JsonValue::Array(vec![])))), Call::Invalid);
}

#[test]
fn missing_method_is_invalid() {
    let value = obj(vec![("jsonrpc", text("2.0")), ("id", num(1))]);
    assert_eq!(Call::classify(value), Call::Invalid);
}

#[test]
fn method_of_another_kind_is_invalid() {
    let value = obj(vec![("jsonrpc", text("2.0")), ("method", num(4))]);
    assert_eq!(Call::classify(value), Call::Invalid);
}

#[test]
fn wrong_or_missing_version_is_invalid() {
    let old = obj(vec![("jsonrpc", text("1.0")), ("method", text("update")), ("id", num(1))]);
    assert_eq!(Call::classify(old), Call::Invalid);
    let number = obj(vec![("jsonrpc", num(2)), ("method", text("update"))]);
    assert_eq!(Call::classify(number), Call::Invalid);
    let absent = obj(vec![("method", text("update")), ("id", num(1))]);
    assert_eq!(Call::classify(absent), Call::Invalid);
}

#[test]
fn unknown_key_is_invalid() {
    let value = obj(vec![("jsonrpc", text("2.0")), ("method", text("update")), ("extra", num(1))]);
    assert_eq!(Call::classify(value), Call::Invalid);
}

#[test]
fn repeated_key_is_invalid() {
    let value = obj(vec![
        ("jsonrpc", text("2.0")),
        ("method", text("a")),
        ("method", text("b")),
    ]);
    assert_eq!(Call::classify(value), Call::Invalid);
    let ids = obj(vec![
        ("jsonrpc", text("2.0")),
        ("method", text("a")),
        ("id", num(1)),
        ("id", num(2)),
    ]);
    assert_eq!(Call::classify(ids), Call::Invalid);
}

#[test]
fn params_of_another_kind_is_invalid() {
    let null = obj(vec![("jsonrpc", text("2.0")), ("method", text("a")), ("params", JsonValue::Null)]);
    assert_eq!(Call::classify(null), Call::Invalid);
    let scalar = obj(vec![("jsonrpc", text("2.0")), ("method", text("a")), ("params", num(3))]);
    assert_eq!(Call::classify(scalar), Call::Invalid);
}

#[test]
fn scalars_are_invalid() {
    assert_eq!(Call::classify(num(1)), Call::Invalid);
    assert_eq!(Call::classify(text("update")), Call::Invalid);
    assert_eq!(Call::classify(JsonValue::Null), Call::Invalid);
    assert_eq!(Call::classify(JsonValue::Bool(false)), Call::Invalid);
    assert_eq!(Call::classify(JsonValue::Decimal("2.5".to_string())), Call::Invalid);
}

#[test]
fn empty_batch_is_kept() {
    assert_eq!(Request::resolve(JsonValue::Array(vec![])), Request::Batch(vec![]));
}

#[test]
fn batch_keeps_length_and_order() {
    let value = JsonValue::Array(vec![
        update_call(None),
        text("x"),
        update_call(Some(num(2))),
        JsonValue::Array(vec![]),
    ]);
    match Request::resolve(value) {
        Request::Batch(calls) => {
            assert_eq!(calls.len(), 4);
            assert!(matches!(calls[0], Call::Notification(_)));
            assert_eq!(calls[1], Call::Invalid);
            assert!(matches!(&calls[2], Call::MethodCall(c) if c.id == Id::Num(2)));
            assert_eq!(calls[3], Call::Invalid);
        }
        Request::Single(_) => panic!("an array resolves to a batch"),
    }
}

#[test]
fn non_array_resolves_to_single() {
    assert_eq!(Request::resolve(num(1)), Request::Single(Call::Invalid));
    assert_eq!(Request::resolve(update_call(Some(num(1)))), Request::Single(Call::MethodCall(MethodCall {
        jsonrpc: Version::V2,
        method: "update".to_string(),
        params: Some(Params::Array(vec![num(1), num(2)])),
        id: Id::Num(1),
    })));
}

#[test]
fn version_and_id_and_params_decoders() {
    assert_eq!(Version::from_json(&text("2.0")), Some(Version::V2));
    assert_eq!(Version::from_json(&text("2.00")), None);
    assert_eq!(Id::from_json(num(3)), Some(Id::Num(3)));
    assert_eq!(Id::from_json(JsonValue::Bool(true)), None);
    assert_eq!(Params::from_json(JsonValue::Array(vec![])), Some(Params::Array(vec![])));
    assert_eq!(Params::from_json(JsonValue::Null), None);
}
