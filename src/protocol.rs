//! The DDP messages, in both directions, and their JSON form.

use vstd::prelude::*;
use serde_json::Value;
use crate::json::{
    json_is_null, json_is_object, json_member, json_parse, json_pretty_text, json_str, json_text,
    json_u64, member, members_of, number_value, object_value, parse_text, to_pretty_text, to_text,
};
use crate::wire::{
    conforms, encodes, holds_null, lemma_fields_round_trip, maybe_text_view, maybe_texts_view, read_fields,
    read_maybe_text, read_maybe_texts, read_maybe_value, read_text, read_texts, read_values,
    texts_view, write_frame, Field, FieldValue, Frame, Kind,
};

verus! {

/// Why a frame could not be read as a message.
#[derive(PartialEq, Eq, Structural, Debug, Clone, Copy)]
pub enum DecodeError {
    /// The frame is not JSON text.
    NotJson,
    /// The JSON value is not a message of the expected direction.
    NotAMessage,
}

/// Whether `a` and `b` are the same text.
fn same_text(a: &str, b: &str) -> (r: bool)
    ensures
        r == (a@ == b@),
{
    a.to_owned() == b.to_owned()
}

/// The reply to a method call.
#[derive(Debug, PartialEq, Eq)]
pub struct MethodResponse {
    pub id: String,
    pub result: Option<Value>,
    pub error: Option<Value>,
}

/// DDP messages from server to client.
#[derive(Debug, PartialEq, Eq)]
pub enum ServerMessage {
    Connected { session: String },
    Failed { version: String },
    Ping { id: Option<String> },
    Pong { id: Option<String> },
    /// The result of a method call.
    Result(MethodResponse),
    /// Sent after unsubscribing, or to signal a subscription failure.
    Nosub { id: String, error: Option<Value> },
    /// Signals progress on one or several method calls.
    Updated { methods: Vec<String> },
    Added { collection: String, id: String, fields: Option<Value> },
    Changed {
        collection: String,
        id: String,
        fields: Option<Value>,
        cleared: Option<Vec<String>>,
    },
    Removed { collection: String, id: String },
    Ready { subs: Vec<String> },
    AddedBefore {
        collection: String,
        id: String,
        fields: Option<Value>,
        before: Option<String>,
    },
    MovedBefore { before: Option<String> },
}

/// The fields that each tag of a server message carries, in order.
pub open spec fn server_schema(tag: Seq<char>) -> Option<Seq<(Seq<char>, Kind)>> {
    if tag == "connected"@ {
        Some(seq![("session"@, Kind::Text)])
    } else if tag == "failed"@ {
        Some(seq![("version"@, Kind::Text)])
    } else if tag == "ping"@ || tag == "pong"@ {
        Some(seq![("id"@, Kind::MaybeText)])
    } else if tag == "result"@ {
        Some(seq![("id"@, Kind::Text), ("result"@, Kind::MaybeValue), ("error"@, Kind::MaybeValue)])
    } else if tag == "nosub"@ {
        Some(seq![("id"@, Kind::Text), ("error"@, Kind::MaybeValue)])
    } else if tag == "updated"@ {
        Some(seq![("methods"@, Kind::Texts)])
    } else if tag == "added"@ {
        Some(seq![("collection"@, Kind::Text), ("id"@, Kind::Text), ("fields"@, Kind::MaybeValue)])
    } else if tag == "changed"@ {
        Some(
            seq![
                ("collection"@, Kind::Text),
                ("id"@, Kind::Text),
                ("fields"@, Kind::MaybeValue),
                ("cleared"@, Kind::MaybeTexts),
            ],
        )
    } else if tag == "removed"@ {
        Some(seq![("collection"@, Kind::Text), ("id"@, Kind::Text)])
    } else if tag == "ready"@ {
        Some(seq![("subs"@, Kind::Texts)])
    } else if tag == "addedBefore"@ {
        Some(
            seq![
                ("collection"@, Kind::Text),
                ("id"@, Kind::Text),
                ("fields"@, Kind::MaybeValue),
                ("before"@, Kind::MaybeText),
            ],
        )
    } else if tag == "movedBefore"@ {
        Some(seq![("before"@, Kind::MaybeText)])
    } else {
        None
    }
}

/// The frame that the JSON value `v` holds as a server message, if any.
pub open spec fn read_server(v: Value) -> Option<Frame> {
    match json_member(v, "msg"@) {
        Some(t) => match json_str(t) {
            Some(tag) => match server_schema(tag) {
                Some(schema) => match read_fields(v, schema) {
                    Some(fields) => Some(Frame { tag, fields }),
                    None => None,
                },
                None => None,
            },
            None => None,
        },
        None => None,
    }
}

impl ServerMessage {
    /// The message as the wire sees it.
    pub open spec fn frame(&self) -> Frame {
        match self {
            ServerMessage::Connected { session } => Frame {
                tag: "connected"@,
                fields: seq![("session"@, Field::Text(session@))],
            },
            ServerMessage::Failed { version } => Frame {
                tag: "failed"@,
                fields: seq![("version"@, Field::Text(version@))],
            },
            ServerMessage::Ping { id } => Frame {
                tag: "ping"@,
                fields: seq![("id"@, Field::MaybeText(maybe_text_view(*id)))],
            },
            ServerMessage::Pong { id } => Frame {
                tag: "pong"@,
                fields: seq![("id"@, Field::MaybeText(maybe_text_view(*id)))],
            },
            ServerMessage::Result(r) => Frame {
                tag: "result"@,
                fields: seq![
                    ("id"@, Field::Text(r.id@)),
                    ("result"@, Field::MaybeValue(r.result)),
                    ("error"@, Field::MaybeValue(r.error)),
                ],
            },
            ServerMessage::Nosub { id, error } => Frame {
                tag: "nosub"@,
                fields: seq![("id"@, Field::Text(id@)), ("error"@, Field::MaybeValue(*error))],
            },
            ServerMessage::Updated { methods } => Frame {
                tag: "updated"@,
                fields: seq![("methods"@, Field::Texts(texts_view(methods@)))],
            },
            ServerMessage::Added { collection, id, fields } => Frame {
                tag: "added"@,
                fields: seq![
                    ("collection"@, Field::Text(collection@)),
                    ("id"@, Field::Text(id@)),
                    ("fields"@, Field::MaybeValue(*fields)),
                ],
            },
            ServerMessage::Changed { collection, id, fields, cleared } => Frame {
                tag: "changed"@,
                fields: seq![
                    ("collection"@, Field::Text(collection@)),
                    ("id"@, Field::Text(id@)),
                    ("fields"@, Field::MaybeValue(*fields)),
                    ("cleared"@, Field::MaybeTexts(maybe_texts_view(*cleared))),
                ],
            },
            ServerMessage::Removed { collection, id } => Frame {
                tag: "removed"@,
                fields: seq![("collection"@, Field::Text(collection@)), ("id"@, Field::Text(id@))],
            },
            ServerMessage::Ready { subs } => Frame {
                tag: "ready"@,
                fields: seq![("subs"@, Field::Texts(texts_view(subs@)))],
            },
            ServerMessage::AddedBefore { collection, id, fields, before } => Frame {
                tag: "addedBefore"@,
                fields: seq![
                    ("collection"@, Field::Text(collection@)),
                    ("id"@, Field::Text(id@)),
                    ("fields"@, Field::MaybeValue(*fields)),
                    ("before"@, Field::MaybeText(maybe_text_view(*before))),
                ],
            },
            ServerMessage::MovedBefore { before } => Frame {
                tag: "movedBefore"@,
                fields: seq![("before"@, Field::MaybeText(maybe_text_view(*before)))],
            },
        }
    }

    /// The JSON object of the message: `msg` holds its tag, each field is a
    /// member under its name, and an absent optional field is left out.
    pub fn to_value(&self) -> (r: Value)
        ensures
            encodes(r, self.frame()),
    {
        proof {
            reveal_strlit("msg");
            assert("msg"@.len() == 3);
            reveal_strlit("before");
            assert("before"@.len() == 6);
            assert("before"@[0] == 'b');
            reveal_strlit("cleared");
            assert("cleared"@.len() == 7);
            reveal_strlit("collection");
            assert("collection"@.len() == 10);
            reveal_strlit("error");
            assert("error"@.len() == 5);
            reveal_strlit("fields");
            assert("fields"@.len() == 6);
            assert("fields"@[0] == 'f');
            reveal_strlit("id");
            assert("id"@.len() == 2);
            reveal_strlit("methods");
            assert("methods"@.len() == 7);
            reveal_strlit("result");
            assert("result"@.len() == 6);
            reveal_strlit("session");
            assert("session"@.len() == 7);
            reveal_strlit("subs");
            assert("subs"@.len() == 4);
            reveal_strlit("version");
            assert("version"@.len() == 7);
        }
        match self {
            ServerMessage::Connected { session } => {
                let f: Vec<(&str, FieldValue<'_>)> = vec![("session", FieldValue::Text(session))];
                assert(f@[0].0@ != "msg"@);
                assert(f@.map_values(|p: (&str, FieldValue<'_>)| (p.0@, p.1@)) =~= self.frame().fields);
                write_frame("connected", &f)
            },
            ServerMessage::Failed { version } => {
                let f: Vec<(&str, FieldValue<'_>)> = vec![("version", FieldValue::Text(version))];
                assert(f@[0].0@ != "msg"@);
                assert(f@.map_values(|p: (&str, FieldValue<'_>)| (p.0@, p.1@)) =~= self.frame().fields);
                write_frame("failed", &f)
            },
            ServerMessage::Ping { id } => {
                let f: Vec<(&str, FieldValue<'_>)> = vec![("id", FieldValue::MaybeText(id))];
                assert(f@[0].0@ != "msg"@);
                assert(f@.map_values(|p: (&str, FieldValue<'_>)| (p.0@, p.1@)) =~= self.frame().fields);
                write_frame("ping", &f)
            },
            ServerMessage::Pong { id } => {
                let f: Vec<(&str, FieldValue<'_>)> = vec![("id", FieldValue::MaybeText(id))];
                assert(f@[0].0@ != "msg"@);
                assert(f@.map_values(|p: (&str, FieldValue<'_>)| (p.0@, p.1@)) =~= self.frame().fields);
                write_frame("pong", &f)
            },
            ServerMessage::Result(MethodResponse { id, result, error }) => {
                let f: Vec<(&str, FieldValue<'_>)> = vec![("id", FieldValue::Text(id)), ("result", FieldValue::MaybeValue(result)), ("error", FieldValue::MaybeValue(error))];
                assert(f@[0].0@ != "msg"@);
                assert(f@[0].0@ != f@[1].0@);
                assert(f@[0].0@ != f@[2].0@);
                assert(f@[1].0@ != "msg"@);
                assert(f@[1].0@ != f@[2].0@);
                assert(f@[2].0@ != "msg"@);
                assert(f@.map_values(|p: (&str, FieldValue<'_>)| (p.0@, p.1@)) =~= self.frame().fields);
                write_frame("result", &f)
            },
            ServerMessage::Nosub { id, error } => {
                let f: Vec<(&str, FieldValue<'_>)> = vec![("id", FieldValue::Text(id)), ("error", FieldValue::MaybeValue(error))];
                assert(f@[0].0@ != "msg"@);
                assert(f@[0].0@ != f@[1].0@);
                assert(f@[1].0@ != "msg"@);
                assert(f@.map_values(|p: (&str, FieldValue<'_>)| (p.0@, p.1@)) =~= self.frame().fields);
                write_frame("nosub", &f)
            },
            ServerMessage::Updated { methods } => {
                let f: Vec<(&str, FieldValue<'_>)> = vec![("methods", FieldValue::Texts(methods))];
                assert(f@[0].0@ != "msg"@);
                assert(f@.map_values(|p: (&str, FieldValue<'_>)| (p.0@, p.1@)) =~= self.frame().fields);
                write_frame("updated", &f)
            },
            ServerMessage::Added { collection, id, fields } => {
                let f: Vec<(&str, FieldValue<'_>)> = vec![("collection", FieldValue::Text(collection)), ("id", FieldValue::Text(id)), ("fields", FieldValue::MaybeValue(fields))];
                assert(f@[0].0@ != "msg"@);
                assert(f@[0].0@ != f@[1].0@);
                assert(f@[0].0@ != f@[2].0@);
                assert(f@[1].0@ != "msg"@);
                assert(f@[1].0@ != f@[2].0@);
                assert(f@[2].0@ != "msg"@);
                assert(f@.map_values(|p: (&str, FieldValue<'_>)| (p.0@, p.1@)) =~= self.frame().fields);
                write_frame("added", &f)
            },
            ServerMessage::Changed { collection, id, fields, cleared } => {
                let f: Vec<(&str, FieldValue<'_>)> = vec![("collection", FieldValue::Text(collection)), ("id", FieldValue::Text(id)), ("fields", FieldValue::MaybeValue(fields)), ("cleared", FieldValue::MaybeTexts(cleared))];
                assert(f@[0].0@ != "msg"@);
                assert(f@[0].0@ != f@[1].0@);
                assert(f@[0].0@ != f@[2].0@);
                assert(f@[0].0@ != f@[3].0@);
                assert(f@[1].0@ != "msg"@);
                assert(f@[1].0@ != f@[2].0@);
                assert(f@[1].0@ != f@[3].0@);
                assert(f@[2].0@ != "msg"@);
                assert(f@[2].0@ != f@[3].0@);
                assert(f@[3].0@ != "msg"@);
                assert(f@.map_values(|p: (&str, FieldValue<'_>)| (p.0@, p.1@)) =~= self.frame().fields);
                write_frame("changed", &f)
            },
            ServerMessage::Removed { collection, id } => {
                let f: Vec<(&str, FieldValue<'_>)> = vec![("collection", FieldValue::Text(collection)), ("id", FieldValue::Text(id))];
                assert(f@[0].0@ != "msg"@);
                assert(f@[0].0@ != f@[1].0@);
                assert(f@[1].0@ != "msg"@);
                assert(f@.map_values(|p: (&str, FieldValue<'_>)| (p.0@, p.1@)) =~= self.frame().fields);
                write_frame("removed", &f)
            },
            ServerMessage::Ready { subs } => {
                let f: Vec<(&str, FieldValue<'_>)> = vec![("subs", FieldValue::Texts(subs))];
                assert(f@[0].0@ != "msg"@);
                assert(f@.map_values(|p: (&str, FieldValue<'_>)| (p.0@, p.1@)) =~= self.frame().fields);
                write_frame("ready", &f)
            },
            ServerMessage::AddedBefore { collection, id, fields, before } => {
                let f: Vec<(&str, FieldValue<'_>)> = vec![("collection", FieldValue::Text(collection)), ("id", FieldValue::Text(id)), ("fields", FieldValue::MaybeValue(fields)), ("before", FieldValue::MaybeText(before))];
                assert(f@[0].0@ != "msg"@);
                assert(f@[0].0@ != f@[1].0@);
                assert(f@[0].0@ != f@[2].0@);
                assert(f@[0].0@ != f@[3].0@);
                assert(f@[1].0@ != "msg"@);
                assert(f@[1].0@ != f@[2].0@);
                assert(f@[1].0@ != f@[3].0@);
                assert(f@[2].0@ != "msg"@);
                assert(f@[2].0@ != f@[3].0@);
                assert(f@[3].0@ != "msg"@);
                assert(f@.map_values(|p: (&str, FieldValue<'_>)| (p.0@, p.1@)) =~= self.frame().fields);
                write_frame("addedBefore", &f)
            },
            ServerMessage::MovedBefore { before } => {
                let f: Vec<(&str, FieldValue<'_>)> = vec![("before", FieldValue::MaybeText(before))];
                assert(f@[0].0@ != "msg"@);
                assert(f@.map_values(|p: (&str, FieldValue<'_>)| (p.0@, p.1@)) =~= self.frame().fields);
                write_frame("movedBefore", &f)
            },
        }
    }

    /// Reads a server message from a JSON value: `msg` names the kind, the
    /// fields of that kind are read by name, and other members are ignored.
    pub fn from_value(v: &Value) -> (r: Option<ServerMessage>)
        ensures
            match read_server(*v) {
                Some(fr) => r matches Some(m) && m.frame() == fr,
                None => r is None,
            },
    {
        proof {
            reveal_strlit("connected");
            reveal_strlit("failed");
            reveal_strlit("ping");
            reveal_strlit("pong");
            reveal_strlit("result");
            reveal_strlit("nosub");
            reveal_strlit("updated");
            reveal_strlit("added");
            reveal_strlit("changed");
            reveal_strlit("removed");
            reveal_strlit("ready");
            reveal_strlit("addedBefore");
            reveal_strlit("movedBefore");
        }
        let tag = member(v, "msg")?.as_str()?;
        let ghost schema = server_schema(tag@)->Some_0;
        if same_text(tag, "connected") {
            assert(schema[0] == ("session"@, Kind::Text));
            let session = read_text(v, "session")?;
            let m = ServerMessage::Connected { session };
            assert(m.frame().fields =~= read_fields(*v, schema)->Some_0);
            Some(m)
        } else if same_text(tag, "failed") {
            assert(schema[0] == ("version"@, Kind::Text));
            let version = read_text(v, "version")?;
            let m = ServerMessage::Failed { version };
            assert(m.frame().fields =~= read_fields(*v, schema)->Some_0);
            Some(m)
        } else if same_text(tag, "ping") {
            assert(schema[0] == ("id"@, Kind::MaybeText));
            let id = read_maybe_text(v, "id")?;
            let m = ServerMessage::Ping { id };
            assert(m.frame().fields =~= read_fields(*v, schema)->Some_0);
            Some(m)
        } else if same_text(tag, "pong") {
            assert(schema[0] == ("id"@, Kind::MaybeText));
            let id = read_maybe_text(v, "id")?;
            let m = ServerMessage::Pong { id };
            assert(m.frame().fields =~= read_fields(*v, schema)->Some_0);
            Some(m)
        } else if same_text(tag, "result") {
            assert(schema[0] == ("id"@, Kind::Text));
            assert(schema[1] == ("result"@, Kind::MaybeValue));
            assert(schema[2] == ("error"@, Kind::MaybeValue));
            let id = read_text(v, "id")?;
            let result = read_maybe_value(v, "result");
            let error = read_maybe_value(v, "error");
            let m = ServerMessage::Result(MethodResponse { id, result, error });
            assert(m.frame().fields =~= read_fields(*v, schema)->Some_0);
            Some(m)
        } else if same_text(tag, "nosub") {
            assert(schema[0] == ("id"@, Kind::Text));
            assert(schema[1] == ("error"@, Kind::MaybeValue));
            let id = read_text(v, "id")?;
            let error = read_maybe_value(v, "error");
            let m = ServerMessage::Nosub { id, error };
            assert(m.frame().fields =~= read_fields(*v, schema)->Some_0);
            Some(m)
        } else if same_text(tag, "updated") {
            assert(schema[0] == ("methods"@, Kind::Texts));
            let methods = read_texts(v, "methods")?;
            let m = ServerMessage::Updated { methods };
            assert(m.frame().fields =~= read_fields(*v, schema)->Some_0);
            Some(m)
        } else if same_text(tag, "added") {
            assert(schema[0] == ("collection"@, Kind::Text));
            assert(schema[1] == ("id"@, Kind::Text));
            assert(schema[2] == ("fields"@, Kind::MaybeValue));
            let collection = read_text(v, "collection")?;
            let id = read_text(v, "id")?;
            let fields = read_maybe_value(v, "fields");
            let m = ServerMessage::Added { collection, id, fields };
            assert(m.frame().fields =~= read_fields(*v, schema)->Some_0);
            Some(m)
        } else if same_text(tag, "changed") {
            assert(schema[0] == ("collection"@, Kind::Text));
            assert(schema[1] == ("id"@, Kind::Text));
            assert(schema[2] == ("fields"@, Kind::MaybeValue));
            assert(schema[3] == ("cleared"@, Kind::MaybeTexts));
            let collection = read_text(v, "collection")?;
            let id = read_text(v, "id")?;
            let fields = read_maybe_value(v, "fields");
            let cleared = read_maybe_texts(v, "cleared")?;
            let m = ServerMessage::Changed { collection, id, fields, cleared };
            assert(m.frame().fields =~= read_fields(*v, schema)->Some_0);
            Some(m)
        } else if same_text(tag, "removed") {
            assert(schema[0] == ("collection"@, Kind::Text));
            assert(schema[1] == ("id"@, Kind::Text));
            let collection = read_text(v, "collection")?;
            let id = read_text(v, "id")?;
            let m = ServerMessage::Removed { collection, id };
            assert(m.frame().fields =~= read_fields(*v, schema)->Some_0);
            Some(m)
        } else if same_text(tag, "ready") {
            assert(schema[0] == ("subs"@, Kind::Texts));
            let subs = read_texts(v, "subs")?;
            let m = ServerMessage::Ready { subs };
            assert(m.frame().fields =~= read_fields(*v, schema)->Some_0);
            Some(m)
        } else if same_text(tag, "addedBefore") {
            assert(schema[0] == ("collection"@, Kind::Text));
            assert(schema[1] == ("id"@, Kind::Text));
            assert(schema[2] == ("fields"@, Kind::MaybeValue));
            assert(schema[3] == ("before"@, Kind::MaybeText));
            let collection = read_text(v, "collection")?;
            let id = read_text(v, "id")?;
            let fields = read_maybe_value(v, "fields");
            let before = read_maybe_text(v, "before")?;
            let m = ServerMessage::AddedBefore { collection, id, fields, before };
            assert(m.frame().fields =~= read_fields(*v, schema)->Some_0);
            Some(m)
        } else if same_text(tag, "movedBefore") {
            assert(schema[0] == ("before"@, Kind::MaybeText));
            let before = read_maybe_text(v, "before")?;
            let m = ServerMessage::MovedBefore { before };
            assert(m.frame().fields =~= read_fields(*v, schema)->Some_0);
            Some(m)
        } else {
            None
        }
    }
}

/// DDP messages from client to server.
#[derive(Debug, PartialEq, Eq)]
pub enum ClientMessage {
    /// Connection request. This must be the first message sent, and is used
    /// for version negotiation.
    Connect { version: String, support: Vec<String>, session: Option<String> },
    Ping { id: Option<String> },
    Pong { id: Option<String> },
    /// A method call.
    Method { id: String, method: String, params: Vec<Value> },
    Sub { id: String, name: String, params: Vec<Value> },
    Unsub { id: String },
}

/// The fields that each tag of a client message carries, in order.
pub open spec fn client_schema(tag: Seq<char>) -> Option<Seq<(Seq<char>, Kind)>> {
    if tag == "connect"@ {
        Some(seq![("version"@, Kind::Text), ("support"@, Kind::Texts), ("session"@, Kind::MaybeText)])
    } else if tag == "ping"@ {
        Some(seq![("id"@, Kind::MaybeText)])
    } else if tag == "pong"@ {
        Some(seq![("id"@, Kind::MaybeText)])
    } else if tag == "method"@ {
        Some(seq![("id"@, Kind::Text), ("method"@, Kind::Text), ("params"@, Kind::Values)])
    } else if tag == "sub"@ {
        Some(seq![("id"@, Kind::Text), ("name"@, Kind::Text), ("params"@, Kind::Values)])
    } else if tag == "unsub"@ {
        Some(seq![("id"@, Kind::Text)])
    } else {
        None
    }
}

/// The frame that the JSON value `v` holds as a client message, if any.
pub open spec fn read_client(v: Value) -> Option<Frame> {
    match json_member(v, "msg"@) {
        Some(t) => match json_str(t) {
            Some(tag) => match client_schema(tag) {
                Some(schema) => match read_fields(v, schema) {
                    Some(fields) => Some(Frame { tag, fields }),
                    None => None,
                },
                None => None,
            },
            None => None,
        },
        None => None,
    }
}

impl ClientMessage {
    /// The message as the wire sees it.
    pub open spec fn frame(&self) -> Frame {
        match self {
            ClientMessage::Connect { version, support, session } => Frame { tag: "connect"@, fields: seq![("version"@, Field::Text(version@)), ("support"@, Field::Texts(texts_view(support@))), ("session"@, Field::MaybeText(maybe_text_view(*session)))] },
            ClientMessage::Ping { id } => Frame { tag: "ping"@, fields: seq![("id"@, Field::MaybeText(maybe_text_view(*id)))] },
            ClientMessage::Pong { id } => Frame { tag: "pong"@, fields: seq![("id"@, Field::MaybeText(maybe_text_view(*id)))] },
            ClientMessage::Method { id, method, params } => Frame { tag: "method"@, fields: seq![("id"@, Field::Text(id@)), ("method"@, Field::Text(method@)), ("params"@, Field::Values(params@))] },
            ClientMessage::Sub { id, name, params } => Frame { tag: "sub"@, fields: seq![("id"@, Field::Text(id@)), ("name"@, Field::Text(name@)), ("params"@, Field::Values(params@))] },
            ClientMessage::Unsub { id } => Frame { tag: "unsub"@, fields: seq![("id"@, Field::Text(id@))] },
        }
    }

    /// The JSON object of the message: `msg` holds its tag, each field is a
    /// member under its name, and an absent optional field is left out.
    pub fn to_value(&self) -> (r: Value)
        ensures
            encodes(r, self.frame()),
    {
        proof {
            reveal_strlit("msg");
            assert("msg"@.len() == 3);
            reveal_strlit("version");
            assert("version"@.len() == 7);
            assert("version"@[0] == 'v');
            reveal_strlit("support");
            assert("support"@.len() == 7);
            assert("support"@[0] == 's');
            assert("support"@[1] == 'u');
            reveal_strlit("session");
            assert("session"@.len() == 7);
            assert("session"@[1] == 'e');
            reveal_strlit("id");
            assert("id"@.len() == 2);
            reveal_strlit("method");
            assert("method"@.len() == 6);
            assert("method"@[0] == 'm');
            reveal_strlit("params");
            assert("params"@.len() == 6);
            assert("params"@[0] == 'p');
            reveal_strlit("name");
            assert("name"@.len() == 4);
        }
        match self {
            ClientMessage::Connect { version, support, session } => {
                let f: Vec<(&str, FieldValue<'_>)> = vec![("version", FieldValue::Text(version)), ("support", FieldValue::Texts(support)), ("session", FieldValue::MaybeText(session))];
                assert(f@[0].0@ != "msg"@);
                assert(f@[0].0@ != f@[1].0@);
                assert(f@[0].0@ != f@[2].0@);
                assert(f@[1].0@ != "msg"@);
                assert(f@[1].0@ != f@[2].0@);
                assert(f@[2].0@ != "msg"@);
                assert(f@.map_values(|p: (&str, FieldValue<'_>)| (p.0@, p.1@)) =~= self.frame().fields);
                write_frame("connect", &f)
            },
            ClientMessage::Ping { id } => {
                let f: Vec<(&str, FieldValue<'_>)> = vec![("id", FieldValue::MaybeText(id))];
                assert(f@[0].0@ != "msg"@);
                assert(f@.map_values(|p: (&str, FieldValue<'_>)| (p.0@, p.1@)) =~= self.frame().fields);
                write_frame("ping", &f)
            },
            ClientMessage::Pong { id } => {
                let f: Vec<(&str, FieldValue<'_>)> = vec![("id", FieldValue::MaybeText(id))];
                assert(f@[0].0@ != "msg"@);
                assert(f@.map_values(|p: (&str, FieldValue<'_>)| (p.0@, p.1@)) =~= self.frame().fields);
                write_frame("pong", &f)
            },
            ClientMessage::Method { id, method, params } => {
                let f: Vec<(&str, FieldValue<'_>)> = vec![("id", FieldValue::Text(id)), ("method", FieldValue::Text(method)), ("params", FieldValue::Values(params))];
                assert(f@[0].0@ != "msg"@);
                assert(f@[0].0@ != f@[1].0@);
                assert(f@[0].0@ != f@[2].0@);
                assert(f@[1].0@ != "msg"@);
                assert(f@[1].0@ != f@[2].0@);
                assert(f@[2].0@ != "msg"@);
                assert(f@.map_values(|p: (&str, FieldValue<'_>)| (p.0@, p.1@)) =~= self.frame().fields);
                write_frame("method", &f)
            },
            ClientMessage::Sub { id, name, params } => {
                let f: Vec<(&str, FieldValue<'_>)> = vec![("id", FieldValue::Text(id)), ("name", FieldValue::Text(name)), ("params", FieldValue::Values(params))];
                assert(f@[0].0@ != "msg"@);
                assert(f@[0].0@ != f@[1].0@);
                assert(f@[0].0@ != f@[2].0@);
                assert(f@[1].0@ != "msg"@);
                assert(f@[1].0@ != f@[2].0@);
                assert(f@[2].0@ != "msg"@);
                assert(f@.map_values(|p: (&str, FieldValue<'_>)| (p.0@, p.1@)) =~= self.frame().fields);
                write_frame("sub", &f)
            },
            ClientMessage::Unsub { id } => {
                let f: Vec<(&str, FieldValue<'_>)> = vec![("id", FieldValue::Text(id))];
                assert(f@[0].0@ != "msg"@);
                assert(f@.map_values(|p: (&str, FieldValue<'_>)| (p.0@, p.1@)) =~= self.frame().fields);
                write_frame("unsub", &f)
            },
        }
    }

    /// Reads a client message from a JSON value: `msg` names the kind, the
    /// fields of that kind are read by name, and other members are ignored.
    pub fn from_value(v: &Value) -> (r: Option<ClientMessage>)
        ensures
            match read_client(*v) {
                Some(fr) => r matches Some(m) && m.frame() == fr,
                None => r is None,
            },
    {
        proof {
            reveal_strlit("connect");
            assert("connect"@.len() == 7);
            reveal_strlit("ping");
            assert("ping"@.len() == 4);
            reveal_strlit("pong");
            assert("pong"@.len() == 4);
            reveal_strlit("method");
            assert("method"@.len() == 6);
            reveal_strlit("sub");
            assert("sub"@.len() == 3);
            reveal_strlit("unsub");
            assert("unsub"@.len() == 5);
        }
        let tag = member(v, "msg")?.as_str()?;
        let ghost schema = client_schema(tag@)->Some_0;
        if same_text(tag, "connect") {
            assert(schema[0] == ("version"@, Kind::Text));
            assert(schema[1] == ("support"@, Kind::Texts));
            assert(schema[2] == ("session"@, Kind::MaybeText));
            let version = read_text(v, "version")?;
            let support = read_texts(v, "support")?;
            let session = read_maybe_text(v, "session")?;
            let m = ClientMessage::Connect { version, support, session };
            assert(m.frame().fields =~= read_fields(*v, schema)->Some_0);
            Some(m)
        } else if same_text(tag, "ping") {
            assert(schema[0] == ("id"@, Kind::MaybeText));
            let id = read_maybe_text(v, "id")?;
            let m = ClientMessage::Ping { id };
            assert(m.frame().fields =~= read_fields(*v, schema)->Some_0);
            Some(m)
        } else if same_text(tag, "pong") {
            assert(schema[0] == ("id"@, Kind::MaybeText));
            let id = read_maybe_text(v, "id")?;
            let m = ClientMessage::Pong { id };
            assert(m.frame().fields =~= read_fields(*v, schema)->Some_0);
            Some(m)
        } else if same_text(tag, "method") {
            assert(schema[0] == ("id"@, Kind::Text));
            assert(schema[1] == ("method"@, Kind::Text));
            assert(schema[2] == ("params"@, Kind::Values));
            let id = read_text(v, "id")?;
            let method = read_text(v, "method")?;
            let params = read_values(v, "params")?;
            let m = ClientMessage::Method { id, method, params };
            assert(m.frame().fields =~= read_fields(*v, schema)->Some_0);
            Some(m)
        } else if same_text(tag, "sub") {
            assert(schema[0] == ("id"@, Kind::Text));
            assert(schema[1] == ("name"@, Kind::Text));
            assert(schema[2] == ("params"@, Kind::Values));
            let id = read_text(v, "id")?;
            let name = read_text(v, "name")?;
            let params = read_values(v, "params")?;
            let m = ClientMessage::Sub { id, name, params };
            assert(m.frame().fields =~= read_fields(*v, schema)->Some_0);
            Some(m)
        } else if same_text(tag, "unsub") {
            assert(schema[0] == ("id"@, Kind::Text));
            let id = read_text(v, "id")?;
            let m = ClientMessage::Unsub { id };
            assert(m.frame().fields =~= read_fields(*v, schema)->Some_0);
            Some(m)
        } else {
            None
        }
    }
}

/// Whether no optional value of a frame is an explicit JSON `null`.
pub open spec fn null_free(fr: Frame) -> bool {
    forall|i: int| 0 <= i < fr.fields.len() ==> !holds_null(#[trigger] fr.fields[i].1)
}

/// Reading back the JSON object of a server message gives the message
/// again, field for field, unless one of its optional values is an explicit
/// `null`, which reads back as absent.
pub proof fn lemma_server_round_trip(m: ServerMessage, v: Value)
    requires
        encodes(v, m.frame()),
        null_free(m.frame()),
    ensures
        read_server(v) == Some(m.frame()),
{
    reveal_strlit("connected");
    assert("connected"@.len() == 9);
    assert("connected"@[0] == 'c');
    assert("connected"@[1] == 'o');
    reveal_strlit("failed");
    assert("failed"@.len() == 6);
    assert("failed"@[0] == 'f');
    assert("failed"@[1] == 'a');
    reveal_strlit("ping");
    assert("ping"@.len() == 4);
    assert("ping"@[0] == 'p');
    assert("ping"@[1] == 'i');
    reveal_strlit("pong");
    assert("pong"@.len() == 4);
    assert("pong"@[0] == 'p');
    assert("pong"@[1] == 'o');
    reveal_strlit("result");
    assert("result"@.len() == 6);
    assert("result"@[0] == 'r');
    assert("result"@[1] == 'e');
    reveal_strlit("nosub");
    assert("nosub"@.len() == 5);
    assert("nosub"@[0] == 'n');
    assert("nosub"@[1] == 'o');
    reveal_strlit("updated");
    assert("updated"@.len() == 7);
    assert("updated"@[0] == 'u');
    assert("updated"@[1] == 'p');
    reveal_strlit("added");
    assert("added"@.len() == 5);
    assert("added"@[0] == 'a');
    assert("added"@[1] == 'd');
    reveal_strlit("changed");
    assert("changed"@.len() == 7);
    assert("changed"@[0] == 'c');
    assert("changed"@[1] == 'h');
    reveal_strlit("removed");
    assert("removed"@.len() == 7);
    assert("removed"@[0] == 'r');
    assert("removed"@[1] == 'e');
    reveal_strlit("ready");
    assert("ready"@.len() == 5);
    assert("ready"@[0] == 'r');
    assert("ready"@[1] == 'e');
    reveal_strlit("addedBefore");
    assert("addedBefore"@.len() == 11);
    assert("addedBefore"@[0] == 'a');
    assert("addedBefore"@[1] == 'd');
    reveal_strlit("movedBefore");
    assert("movedBefore"@.len() == 11);
    assert("movedBefore"@[0] == 'm');
    assert("movedBefore"@[1] == 'o');
    let fr = m.frame();
    let schema = server_schema(fr.tag)->Some_0;
    assert(server_schema(fr.tag) is Some);
    assert(conforms(fr.fields, schema));
    lemma_fields_round_trip(v, fr.fields, schema);
}

/// Reading back the JSON object of a client message gives the message
/// again, field for field.
pub proof fn lemma_client_round_trip(m: ClientMessage, v: Value)
    requires
        encodes(v, m.frame()),
    ensures
        read_client(v) == Some(m.frame()),
{
    reveal_strlit("connect");
    assert("connect"@.len() == 7);
    assert("connect"@[0] == 'c');
    assert("connect"@[1] == 'o');
    reveal_strlit("ping");
    assert("ping"@.len() == 4);
    assert("ping"@[0] == 'p');
    assert("ping"@[1] == 'i');
    reveal_strlit("pong");
    assert("pong"@.len() == 4);
    assert("pong"@[0] == 'p');
    assert("pong"@[1] == 'o');
    reveal_strlit("method");
    assert("method"@.len() == 6);
    assert("method"@[0] == 'm');
    assert("method"@[1] == 'e');
    reveal_strlit("sub");
    assert("sub"@.len() == 3);
    assert("sub"@[0] == 's');
    assert("sub"@[1] == 'u');
    reveal_strlit("unsub");
    assert("unsub"@.len() == 5);
    assert("unsub"@[0] == 'u');
    assert("unsub"@[1] == 'n');
    let fr = m.frame();
    let schema = client_schema(fr.tag)->Some_0;
    assert(client_schema(fr.tag) is Some);
    assert(conforms(fr.fields, schema));
    lemma_fields_round_trip(v, fr.fields, schema);
}

impl ServerMessage {
    /// Reads a server message from a frame of JSON text.
    pub fn from_text(s: &str) -> (r: Result<ServerMessage, DecodeError>)
        ensures
            match json_parse(s@) {
                None => r == Err::<ServerMessage, DecodeError>(DecodeError::NotJson),
                Some(v) => match read_server(v) {
                    Some(fr) => r matches Ok(m) && m.frame() == fr,
                    None => r == Err::<ServerMessage, DecodeError>(DecodeError::NotAMessage),
                },
            },
    {
        match parse_text(s) {
            None => Err(DecodeError::NotJson),
            Some(v) => match ServerMessage::from_value(&v) {
                Some(m) => Ok(m),
                None => Err(DecodeError::NotAMessage),
            },
        }
    }

    /// The compact JSON text of the message.
    pub fn to_text(&self) -> (r: String)
        ensures
            exists|v: Value| encodes(v, self.frame()) && r@ == json_text(v),
    {
        let v = self.to_value();
        to_text(&v)
    }

    /// The indented JSON text of the message, for people to read.
    pub fn pretty(&self) -> (r: String)
        ensures
            exists|v: Value| encodes(v, self.frame()) && r@ == json_pretty_text(v),
    {
        let v = self.to_value();
        to_pretty_text(&v)
    }
}

impl ClientMessage {
    /// Reads a client message from a frame of JSON text.
    pub fn from_text(s: &str) -> (r: Result<ClientMessage, DecodeError>)
        ensures
            match json_parse(s@) {
                None => r == Err::<ClientMessage, DecodeError>(DecodeError::NotJson),
                Some(v) => match read_client(v) {
                    Some(fr) => r matches Ok(m) && m.frame() == fr,
                    None => r == Err::<ClientMessage, DecodeError>(DecodeError::NotAMessage),
                },
            },
    {
        match parse_text(s) {
            None => Err(DecodeError::NotJson),
            Some(v) => match ClientMessage::from_value(&v) {
                Some(m) => Ok(m),
                None => Err(DecodeError::NotAMessage),
            },
        }
    }

    /// The compact JSON text of the message.
    pub fn to_text(&self) -> (r: String)
        ensures
            exists|v: Value| encodes(v, self.frame()) && r@ == json_text(v),
    {
        let v = self.to_value();
        to_text(&v)
    }
}

/// A date represented by the JSON object `{ "$date": ts }`, with `ts` in
/// milliseconds since the epoch. It has no total order, because the
/// timestamp may be missing.
#[derive(Clone, Copy, Debug, PartialEq, Eq, Structural)]
pub struct Timestamp {
    pub millis: Option<u64>,
}

/// Whether `v` is the JSON object of a timestamp with `millis`.
pub open spec fn date_written(v: Value, millis: Option<u64>) -> bool {
    &&& json_is_object(v)
    &&& match millis {
        Some(n) => json_member(v, "$date"@) matches Some(x) && json_u64(x) == Some(n),
        None => json_member(v, "$date"@) is None,
    }
    &&& forall|k: Seq<char>| k != "$date"@ ==> (#[trigger] json_member(v, k)) is None
}

/// The milliseconds that the JSON value `v` holds as a timestamp; `None`
/// when it holds no timestamp. An absent or `null` date is a missing one.
pub open spec fn date_read(v: Value) -> Option<Option<u64>> {
    if !json_is_object(v) {
        None
    } else {
        match json_member(v, "$date"@) {
            None => Some(None),
            Some(x) => match json_u64(x) {
                Some(n) => Some(Some(n)),
                None => if json_is_null(x) {
                    Some(None)
                } else {
                    None
                },
            },
        }
    }
}

/// The order of two timestamps: that of their milliseconds, when both
/// carry one; none otherwise.
pub open spec fn timestamp_order(a: Option<u64>, b: Option<u64>) -> Option<std::cmp::Ordering> {
    match (a, b) {
        (Some(x), Some(y)) => Some(
            if x < y {
                std::cmp::Ordering::Less
            } else if x > y {
                std::cmp::Ordering::Greater
            } else {
                std::cmp::Ordering::Equal
            },
        ),
        _ => None,
    }
}

impl Timestamp {
    /// The JSON object `{"$date": millis}`; without milliseconds, `{}`.
    pub fn to_value(&self) -> (r: Value)
        ensures
            date_written(r, self.millis),
    {
        let mut m = serde_json::Map::<String, Value>::new();
        match self.millis {
            Some(n) => {
                let _ = m.insert("$date".to_owned(), number_value(n));
            },
            None => {},
        }
        let r = object_value(m);
        assert forall|k: Seq<char>| k != "$date"@ implies (#[trigger] json_member(r, k)) is None by {
            assert(!members_of(m).contains_key(k));
        }
        r
    }

    /// Reads a timestamp from a JSON object.
    pub fn from_value(v: &Value) -> (r: Option<Timestamp>)
        ensures
            match date_read(*v) {
                Some(millis) => r == Some(Timestamp { millis }),
                None => r is None,
            },
    {
        if !v.is_object() {
            return None;
        }
        match member(v, "$date") {
            None => Some(Timestamp { millis: None }),
            Some(x) => match x.as_u64() {
                Some(n) => Some(Timestamp { millis: Some(n) }),
                None => if x.is_null() {
                    Some(Timestamp { millis: None })
                } else {
                    None
                },
            },
        }
    }

    /// The compact JSON text of the timestamp.
    pub fn to_text(&self) -> (r: String)
        ensures
            exists|v: Value| date_written(v, self.millis) && r@ == json_text(v),
    {
        let v = self.to_value();
        to_text(&v)
    }

    /// Reads a timestamp from JSON text.
    pub fn from_text(s: &str) -> (r: Result<Timestamp, DecodeError>)
        ensures
            match json_parse(s@) {
                None => r == Err::<Timestamp, DecodeError>(DecodeError::NotJson),
                Some(v) => match date_read(v) {
                    Some(millis) => r == Ok::<Timestamp, DecodeError>(Timestamp { millis }),
                    None => r == Err::<Timestamp, DecodeError>(DecodeError::NotAMessage),
                },
            },
    {
        match parse_text(s) {
            None => Err(DecodeError::NotJson),
            Some(v) => match Timestamp::from_value(&v) {
                Some(t) => Ok(t),
                None => Err(DecodeError::NotAMessage),
            },
        }
    }
}

/// Reading back the JSON object of a timestamp gives the same timestamp.
pub proof fn lemma_timestamp_round_trip(t: Timestamp, v: Value)
    requires
        date_written(v, t.millis),
    ensures
        date_read(v) == Some(t.millis),
{
}

impl PartialOrd for Timestamp {
    fn partial_cmp(&self, other: &Self) -> Option<std::cmp::Ordering> {
        match (self.millis, other.millis) {
            (Some(a), Some(b)) => if a < b {
                Some(std::cmp::Ordering::Less)
            } else if a > b {
                Some(std::cmp::Ordering::Greater)
            } else {
                Some(std::cmp::Ordering::Equal)
            },
            _ => None,
        }
    }
}

impl vstd::std_specs::cmp::PartialOrdSpecImpl for Timestamp {
    open spec fn obeys_partial_cmp_spec() -> bool {
        true
    }

    open spec fn partial_cmp_spec(&self, other: &Self) -> Option<std::cmp::Ordering> {
        timestamp_order(self.millis, other.millis)
    }
}

} // verus!
