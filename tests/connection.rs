use serde_json::Value;
use siderite::{
    Actor, ClientMessage, DecodeError, MethodResponse, Phase, Reaction, Request, RPCError,
    ServerMessage, Termination,
};

fn inbound(text: &str) -> Result<ServerMessage, DecodeError> {
    ServerMessage::from_text(text)
}

fn sent(r: Reaction<u32>) -> ClientMessage {
    match r {
        Reaction::Send(m) => m,
        _ => panic!("expected a message to send"),
    }
}

fn ready_actor() -> Actor<u32> {
    let mut a = Actor::new();
    let _ = a.start();
    assert!(matches!(a.on_frame(inbound(r#"{"server_id":"0"}"#)), Reaction::Nothing));
    assert!(matches!(a.on_frame(inbound(r#"{"msg":"connected","session":"s"}"#)), Reaction::Nothing));
    assert_eq!(a.phase(), Phase::Ready);
    a
}

fn call(a: &mut Actor<u32>, name: &str, params: Vec<Value>, reply: u32) -> String {
    let r = a.on_request(Request::Method { name: name.to_string(), params, reply });
    match sent(r) {
        ClientMessage::Method { id, .. } => id,
        _ => panic!("expected a method message"),
    }
}

#[test]
fn handshake_sends_connect_first_then_takes_two_frames() {
    let mut a: Actor<u32> = Actor::new();
    assert_eq!(a.phase(), Phase::Connecting);
    let hello = sent(a.start());
    assert_eq!(hello.to_text(), r#"{"msg":"connect","version":"1","support":["1"]}"#);
    assert_eq!(a.phase(), Phase::Handshaking { frames: 0 });
    assert!(matches!(a.start(), Reaction::Nothing));
    assert!(matches!(a.on_frame(Err(DecodeError::NotJson)), Reaction::Nothing));
    assert_eq!(a.phase(), Phase::Handshaking { frames: 1 });
    assert!(matches!(a.on_frame(inbound(r#"{"msg":"failed","version":"2"}"#)), Reaction::Nothing));
    assert_eq!(a.phase(), Phase::Ready);
    let r = a.on_request(Request::Unsubscribe { id: "s".to_string() });
    assert_eq!(sent(r), ClientMessage::Unsub { id: "s".to_string() });
}

#[test]
fn requests_before_ready_are_dropped() {
    let mut a: Actor<u32> = Actor::new();
    let _ = a.start();
    let r = a.on_request(Request::Method { name: "m".to_string(), params: vec![], reply: 1 });
    assert!(matches!(r, Reaction::Nothing));
}

#[test]
fn ping_without_id_gets_one_pong_without_id() {
    let mut a = ready_actor();
    let pong = sent(a.on_frame(inbound(r#"{"msg":"ping"}"#)));
    assert_eq!(pong.to_text(), r#"{"msg":"pong"}"#);
}

#[test]
fn ping_with_id_gets_pong_with_that_id() {
    let mut a = ready_actor();
    let pong = sent(a.on_frame(inbound(r#"{"msg":"ping","id":"42"}"#)));
    assert_eq!(pong.to_text(), r#"{"msg":"pong","id":"42"}"#);
}

#[test]
fn login_call_receives_ok() {
    let mut a = ready_actor();
    let r = a.on_request(Request::Method {
        name: "login".to_string(),
        params: vec![Value::String("bob".to_string()), Value::String("secret".to_string())],
        reply: 7,
    });
    let m = sent(r);
    let id = match &m {
        ClientMessage::Method { id, method, params } => {
            assert_eq!(method, "login");
            assert_eq!(params.len(), 2);
            id.clone()
        },
        _ => panic!("expected a method message"),
    };
    assert_eq!(
        m.to_text(),
        format!(r#"{{"msg":"method","id":"{}","method":"login","params":["bob","secret"]}}"#, id)
    );
    let reply = format!(r#"{{"msg":"result","id":"{}","result":"ok"}}"#, id);
    match a.on_frame(inbound(&reply)) {
        Reaction::Deliver(to, result) => {
            assert_eq!(to, 7);
            assert_eq!(result, Ok(Value::String("ok".to_string())));
        },
        _ => panic!("expected a delivery"),
    }
    assert_eq!(a.phase(), Phase::Ready);
}

#[test]
fn error_reply_is_delivered_as_rpc_error() {
    let mut a = ready_actor();
    let id = call(&mut a, "m", vec![], 3);
    let reply = format!(r#"{{"msg":"result","id":"{}","error":{{"reason":"no"}}}}"#, id);
    match a.on_frame(inbound(&reply)) {
        Reaction::Deliver(to, Err(RPCError(e))) => {
            assert_eq!(to, 3);
            assert_eq!(e.to_string(), r#"{"reason":"no"}"#);
        },
        _ => panic!("expected an error delivery"),
    }
}

#[test]
fn reply_without_result_is_null() {
    let mut a = ready_actor();
    let id = call(&mut a, "m", vec![], 4);
    let reply = format!(r#"{{"msg":"result","id":"{}"}}"#, id);
    match a.on_frame(inbound(&reply)) {
        Reaction::Deliver(4, Ok(v)) => assert!(v.is_null()),
        _ => panic!("expected a null result"),
    }
}

#[test]
fn unknown_result_id_terminates() {
    let mut a = ready_actor();
    let r = a.on_frame(inbound(r#"{"msg":"result","id":"ghost"}"#));
    assert!(matches!(r, Reaction::Stop(Termination::UnknownCallId)));
    assert_eq!(a.phase(), Phase::Terminated(Termination::UnknownCallId));
    assert!(matches!(a.on_frame(inbound(r#"{"msg":"ping"}"#)), Reaction::Nothing));
    let r = a.on_request(Request::Unsubscribe { id: "s".to_string() });
    assert!(matches!(r, Reaction::Nothing));
}

#[test]
fn second_result_for_same_id_terminates() {
    let mut a = ready_actor();
    let id = call(&mut a, "m", vec![], 1);
    let reply = format!(r#"{{"msg":"result","id":"{}","result":1}}"#, id);
    assert!(matches!(a.on_frame(inbound(&reply)), Reaction::Deliver(1, Ok(_))));
    let r = a.on_frame(inbound(&reply));
    assert!(matches!(r, Reaction::Stop(Termination::UnknownCallId)));
}

#[test]
fn calls_go_out_in_order_with_distinct_ids() {
    let mut a = ready_actor();
    let ra = sent(a.on_request(Request::Method { name: "a".to_string(), params: vec![], reply: 1 }));
    let rb = sent(a.on_request(Request::Method { name: "b".to_string(), params: vec![], reply: 2 }));
    match (ra, rb) {
        (
            ClientMessage::Method { id: ida, method: ma, .. },
            ClientMessage::Method { id: idb, method: mb, .. },
        ) => {
            assert_eq!(ma, "a");
            assert_eq!(mb, "b");
            assert_ne!(ida, idb);
            let rb_reply = format!(r#"{{"msg":"result","id":"{}"}}"#, idb);
            assert!(matches!(a.on_frame(inbound(&rb_reply)), Reaction::Deliver(2, _)));
            let ra_reply = format!(r#"{{"msg":"result","id":"{}"}}"#, ida);
            assert!(matches!(a.on_frame(inbound(&ra_reply)), Reaction::Deliver(1, _)));
        },
        _ => panic!("expected two method messages"),
    }
}

#[test]
fn subscription_ready_surfaces_verbatim() {
    let mut a = ready_actor();
    let r = a.on_request(Request::Subscribe {
        name: "feed".to_string(),
        id: "sub1".to_string(),
        params: vec![],
    });
    assert_eq!(sent(r).to_text(), r#"{"msg":"sub","id":"sub1","name":"feed","params":[]}"#);
    match a.on_frame(inbound(r#"{"msg":"ready","subs":["sub1"]}"#)) {
        Reaction::Forward(m) => assert_eq!(m, ServerMessage::Ready { subs: vec!["sub1".to_string()] }),
        _ => panic!("expected the event to be forwarded"),
    }
}

#[test]
fn undecodable_frame_terminates() {
    let mut a = ready_actor();
    let r = a.on_frame(inbound("garbage"));
    assert!(matches!(r, Reaction::Stop(Termination::Undecodable(DecodeError::NotJson))));
    assert_eq!(a.phase(), Phase::Terminated(Termination::Undecodable(DecodeError::NotJson)));
}

#[test]
fn stop_drops_pending_calls_once() {
    let mut a = ready_actor();
    let id = call(&mut a, "m", vec![], 9);
    assert!(matches!(a.stop(Termination::TransportClosed), Reaction::Stop(Termination::TransportClosed)));
    assert!(matches!(a.stop(Termination::SendFailed), Reaction::Nothing));
    assert_eq!(a.phase(), Phase::Terminated(Termination::TransportClosed));
    let reply = format!(r#"{{"msg":"result","id":"{}"}}"#, id);
    assert!(matches!(a.on_frame(inbound(&reply)), Reaction::Nothing));
}

#[test]
fn method_response_into_result() {
    let ok = MethodResponse { id: "1".to_string(), result: Some(Value::Bool(true)), error: None };
    assert_eq!(ok.into_result(), Ok(Value::Bool(true)));
    let err = MethodResponse {
        id: "1".to_string(),
        result: Some(Value::Bool(true)),
        error: Some(Value::String("bad".to_string())),
    };
    assert_eq!(err.into_result(), Err(RPCError(Value::String("bad".to_string()))));
    let none = MethodResponse { id: "1".to_string(), result: None, error: None };
    assert_eq!(none.into_result(), Ok(Value::Null));
}

#[test]
fn rpc_error_message() {
    let e = RPCError(Value::String("denied".to_string()));
    assert_eq!(e.message(), r#"RPC Error: "denied""#);
}
