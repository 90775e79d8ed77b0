use serde_json::Value;
use siderite::{ClientMessage, DecodeError, MethodResponse, ServerMessage, Timestamp};

fn check_server(msg: &ServerMessage, string: &str) {
    let serialized = msg.to_text();
    assert_eq!(serialized, string);
    let deserialized = ServerMessage::from_text(string).unwrap();
    assert_eq!(msg, &deserialized);
}

fn check_client(msg: &ClientMessage, string: &str) {
    let serialized = msg.to_text();
    assert_eq!(serialized, string);
    let deserialized = ClientMessage::from_text(string).unwrap();
    assert_eq!(msg, &deserialized);
}

fn round_trip_server(msg: ServerMessage) {
    let back = ServerMessage::from_value(&msg.to_value()).unwrap();
    assert_eq!(msg, back);
    let back = ServerMessage::from_text(&msg.to_text()).unwrap();
    assert_eq!(msg, back);
}

fn round_trip_client(msg: ClientMessage) {
    let back = ClientMessage::from_value(&msg.to_value()).unwrap();
    assert_eq!(msg, back);
    let back = ClientMessage::from_text(&msg.to_text()).unwrap();
    assert_eq!(msg, back);
}

fn s(x: &str) -> String {
    x.to_string()
}

fn object(key: &str, value: Value) -> Value {
    let mut m = serde_json::Map::new();
    m.insert(s(key), value);
    Value::Object(m)
}

#[test]
fn test_method_result() {
    check_server(
        &ServerMessage::Result(MethodResponse {
            id: "123".to_string(),
            result: Some(Value::String("burp".to_string())),
            error: None,
        }),
        r#"{"msg":"result","id":"123","result":"burp"}"#,
    );
}

#[test]
fn test_method_error() {
    check_server(
        &ServerMessage::Result(MethodResponse {
            id: "456:kahcubwdasd".to_string(),
            error: Some(Value::Bool(true)),
            result: None,
        }),
        r#"{"msg":"result","id":"456:kahcubwdasd","error":true}"#,
    );
}

#[test]
fn test_pingpong() {
    check_server(&ServerMessage::Ping { id: None }, r#"{"msg":"ping"}"#);
    check_server(
        &ServerMessage::Ping { id: Some("pingpong".to_string()) },
        r#"{"msg":"ping","id":"pingpong"}"#,
    );
}

#[test]
fn test_timestamp() {
    let t = Timestamp { millis: Some(129348109238) };
    assert_eq!(t.to_text(), r#"{"$date":129348109238}"#);
    assert_eq!(Timestamp::from_text(r#"{"$date":129348109238}"#), Ok(t));
}

#[test]
fn every_server_variant_reads_back() {
    round_trip_server(ServerMessage::Connected { session: s("abc") });
    round_trip_server(ServerMessage::Failed { version: s("1") });
    round_trip_server(ServerMessage::Ping { id: Some(s("7")) });
    round_trip_server(ServerMessage::Pong { id: None });
    round_trip_server(ServerMessage::Pong { id: Some(s("8")) });
    round_trip_server(ServerMessage::Result(MethodResponse {
        id: s("1:abcdefgh"),
        result: Some(Value::from(3u64)),
        error: None,
    }));
    round_trip_server(ServerMessage::Nosub { id: s("sub1"), error: Some(Value::Bool(false)) });
    round_trip_server(ServerMessage::Nosub { id: s("sub1"), error: None });
    round_trip_server(ServerMessage::Updated { methods: vec![s("a"), s("b")] });
    round_trip_server(ServerMessage::Added {
        collection: s("users"),
        id: s("u1"),
        fields: Some(object("name", Value::String(s("bob")))),
    });
    round_trip_server(ServerMessage::Changed {
        collection: s("users"),
        id: s("u1"),
        fields: None,
        cleared: Some(vec![s("name")]),
    });
    round_trip_server(ServerMessage::Removed { collection: s("users"), id: s("u1") });
    round_trip_server(ServerMessage::Ready { subs: vec![] });
    round_trip_server(ServerMessage::AddedBefore {
        collection: s("c"),
        id: s("i"),
        fields: None,
        before: Some(s("j")),
    });
    round_trip_server(ServerMessage::MovedBefore { before: None });
}

#[test]
fn every_client_variant_reads_back() {
    round_trip_client(ClientMessage::Connect {
        version: s("1"),
        support: vec![s("1"), s("pre2")],
        session: Some(s("xyz")),
    });
    round_trip_client(ClientMessage::Ping { id: None });
    round_trip_client(ClientMessage::Pong { id: Some(s("42")) });
    round_trip_client(ClientMessage::Method {
        id: s("0:abcdefgh"),
        method: s("login"),
        params: vec![Value::String(s("bob")), Value::Null],
    });
    round_trip_client(ClientMessage::Sub { id: s("sub1"), name: s("feed"), params: vec![] });
    round_trip_client(ClientMessage::Unsub { id: s("sub1") });
}

#[test]
fn absent_optional_fields_are_left_out() {
    check_server(
        &ServerMessage::Added { collection: s("c"), id: s("i"), fields: None },
        r#"{"msg":"added","collection":"c","id":"i"}"#,
    );
    check_client(
        &ClientMessage::Connect { version: s("1"), support: vec![s("1")], session: None },
        r#"{"msg":"connect","version":"1","support":["1"]}"#,
    );
    check_client(&ClientMessage::Pong { id: None }, r#"{"msg":"pong"}"#);
    check_client(
        &ClientMessage::Method { id: s("3:abcdefgh"), method: s("m"), params: vec![Value::Null] },
        r#"{"msg":"method","id":"3:abcdefgh","method":"m","params":[null]}"#,
    );
}

#[test]
fn null_optional_field_reads_as_absent() {
    let m = ServerMessage::from_text(r#"{"msg":"ping","id":null}"#).unwrap();
    assert_eq!(m, ServerMessage::Ping { id: None });
    let m = ServerMessage::from_text(r#"{"msg":"nosub","id":"s","error":null}"#).unwrap();
    assert_eq!(m, ServerMessage::Nosub { id: s("s"), error: None });
}

#[test]
fn unknown_members_are_ignored() {
    let m = ServerMessage::from_text(r#"{"msg":"removed","collection":"c","id":"i","x":1}"#);
    assert_eq!(m, Ok(ServerMessage::Removed { collection: s("c"), id: s("i") }));
}

#[test]
fn decode_errors() {
    assert_eq!(ServerMessage::from_text("not json"), Err(DecodeError::NotJson));
    assert_eq!(ServerMessage::from_text(r#"{"msg":"bogus"}"#), Err(DecodeError::NotAMessage));
    assert_eq!(ServerMessage::from_text(r#"{"id":"1"}"#), Err(DecodeError::NotAMessage));
    assert_eq!(ServerMessage::from_text(r#"{"msg":"connected"}"#), Err(DecodeError::NotAMessage));
    assert_eq!(
        ServerMessage::from_text(r#"{"msg":"connected","session":5}"#),
        Err(DecodeError::NotAMessage)
    );
    assert_eq!(ServerMessage::from_text(r#"{"msg":"ready","subs":[1]}"#), Err(DecodeError::NotAMessage));
    assert_eq!(ServerMessage::from_text(r#"[1,2]"#), Err(DecodeError::NotAMessage));
    assert_eq!(ClientMessage::from_text(r#"{"msg":"connected","session":"s"}"#), Err(DecodeError::NotAMessage));
    assert_eq!(ClientMessage::from_text("{"), Err(DecodeError::NotJson));
    assert_eq!(Timestamp::from_text(r#"{"$date":"soon"}"#), Err(DecodeError::NotAMessage));
    assert_eq!(Timestamp::from_text("12"), Err(DecodeError::NotAMessage));
}

#[test]
fn timestamp_without_millis() {
    let t = Timestamp { millis: None };
    assert_eq!(t.to_text(), "{}");
    assert_eq!(Timestamp::from_text("{}"), Ok(t));
    assert_eq!(Timestamp::from_text(r#"{"$date":null}"#), Ok(t));
}

#[test]
fn timestamps_compare_only_with_both_millis() {
    let a = Timestamp { millis: Some(1) };
    let b = Timestamp { millis: Some(2) };
    let none = Timestamp { millis: None };
    assert!(a < b);
    assert!(b > a);
    assert_eq!(a.partial_cmp(&a), Some(std::cmp::Ordering::Equal));
    assert_eq!(a.partial_cmp(&none), None);
    assert_eq!(none.partial_cmp(&none), None);
    assert!(!(a < none) && !(none < a));
}

#[test]
fn pretty_text_is_indented() {
    let m = ServerMessage::Ready { subs: vec![s("sub1")] };
    assert_eq!(m.pretty(), "{\n  \"msg\": \"ready\",\n  \"subs\": [\n    \"sub1\"\n  ]\n}");
}
