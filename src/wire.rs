//! The shape of a message on the wire: a JSON object whose member `msg`
//! names the kind of message, and whose other members are its fields. An
//! optional field that is absent is left out of the object.

use vstd::prelude::*;
use serde_json::Map as JsonObject;
use serde_json::Value;
use crate::json::{
    json_is_null, json_items, json_member, json_str, member, members_of, object_value,
    string_value, array_value,
};

verus! {

/// The kinds of field that messages carry.
pub enum Kind {
    Text,
    MaybeText,
    Texts,
    MaybeTexts,
    Values,
    MaybeValue,
}

/// The value of one field of a message, as the wire sees it.
pub enum Field {
    Text(Seq<char>),
    MaybeText(Option<Seq<char>>),
    Texts(Seq<Seq<char>>),
    MaybeTexts(Option<Seq<Seq<char>>>),
    Values(Seq<Value>),
    MaybeValue(Option<Value>),
}

/// A message as the wire sees it: its tag and its named fields, in order.
pub struct Frame {
    pub tag: Seq<char>,
    pub fields: Seq<(Seq<char>, Field)>,
}

/// A field of a message, borrowed from the message that holds it.
#[derive(Clone, Copy)]
pub enum FieldValue<'a> {
    Text(&'a String),
    MaybeText(&'a Option<String>),
    Texts(&'a Vec<String>),
    MaybeTexts(&'a Option<Vec<String>>),
    Values(&'a Vec<Value>),
    MaybeValue(&'a Option<Value>),
}

/// The texts of a list of strings.
pub open spec fn texts_view(v: Seq<String>) -> Seq<Seq<char>> {
    v.map_values(|s: String| s@)
}

/// The text of an optional string.
pub open spec fn maybe_text_view(o: Option<String>) -> Option<Seq<char>> {
    match o {
        Some(s) => Some(s@),
        None => None,
    }
}

/// The texts of an optional list of strings.
pub open spec fn maybe_texts_view(o: Option<Vec<String>>) -> Option<Seq<Seq<char>>> {
    match o {
        Some(v) => Some(texts_view(v@)),
        None => None,
    }
}

impl<'a> View for FieldValue<'a> {
    type V = Field;

    open spec fn view(&self) -> Field {
        match self {
            FieldValue::Text(s) => Field::Text(s@),
            FieldValue::MaybeText(o) => Field::MaybeText(maybe_text_view(**o)),
            FieldValue::Texts(v) => Field::Texts(texts_view(v@)),
            FieldValue::MaybeTexts(o) => Field::MaybeTexts(maybe_texts_view(**o)),
            FieldValue::Values(v) => Field::Values(v@),
            FieldValue::MaybeValue(o) => Field::MaybeValue(**o),
        }
    }
}

/// The kind of a field.
pub open spec fn kind_of(f: Field) -> Kind {
    match f {
        Field::Text(_) => Kind::Text,
        Field::MaybeText(_) => Kind::MaybeText,
        Field::Texts(_) => Kind::Texts,
        Field::MaybeTexts(_) => Kind::MaybeTexts,
        Field::Values(_) => Kind::Values,
        Field::MaybeValue(_) => Kind::MaybeValue,
    }
}

/// Whether a field holds an explicit JSON `null` as an optional value: the
/// one field that the wire cannot tell apart from an absent one.
pub open spec fn holds_null(f: Field) -> bool {
    f matches Field::MaybeValue(Some(x)) && json_is_null(x)
}

/// The member of `m` under `k`, if any.
pub open spec fn entry(m: Map<Seq<char>, Value>, k: Seq<char>) -> Option<Value> {
    if m.contains_key(k) {
        Some(m[k])
    } else {
        None
    }
}

/// Whether `x` is an array of strings with the texts `ss`.
pub open spec fn texts_written(x: Value, ss: Seq<Seq<char>>) -> bool {
    &&& json_items(x) matches Some(items)
    &&& items.len() == ss.len()
    &&& forall|i: int| 0 <= i < ss.len() ==> json_str(#[trigger] items[i]) == Some(ss[i])
}

/// Whether the member `slot` (absent when `None`) carries field `f`.
pub open spec fn field_written(slot: Option<Value>, f: Field) -> bool {
    match f {
        Field::Text(s) => slot matches Some(x) && json_str(x) == Some(s),
        Field::MaybeText(o) => match o {
            None => slot is None,
            Some(s) => slot matches Some(x) && json_str(x) == Some(s),
        },
        Field::Texts(ss) => slot matches Some(x) && texts_written(x, ss),
        Field::MaybeTexts(o) => match o {
            None => slot is None,
            Some(ss) => slot matches Some(x) && texts_written(x, ss),
        },
        Field::Values(vs) => slot matches Some(x) && json_items(x) == Some(vs),
        Field::MaybeValue(o) => slot == o,
    }
}

/// The names of a frame's fields.
pub open spec fn names(fields: Seq<(Seq<char>, Field)>) -> Seq<Seq<char>> {
    fields.map_values(|p: (Seq<char>, Field)| p.0)
}

/// Whether `v` is the JSON object of frame `fr`: `msg` holds the tag, each
/// field is written under its name, and there is no other member.
pub open spec fn encodes(v: Value, fr: Frame) -> bool {
    &&& json_member(v, "msg"@) matches Some(t) && json_str(t) == Some(fr.tag)
    &&& forall|i: int|
        0 <= i < fr.fields.len() ==> field_written(
            json_member(v, (#[trigger] fr.fields[i]).0),
            fr.fields[i].1,
        )
    &&& forall|k: Seq<char>|
        k != "msg"@ && !names(fr.fields).contains(k) ==> (#[trigger] json_member(v, k)) is None
}

/// The texts of an array of strings; `None` when `x` is not one.
pub open spec fn texts_read(x: Value) -> Option<Seq<Seq<char>>> {
    match json_items(x) {
        Some(items) => if forall|i: int| 0 <= i < items.len() ==> json_str(#[trigger] items[i]) is Some {
            Some(items.map_values(|it: Value| json_str(it)->Some_0))
        } else {
            None
        },
        None => None,
    }
}

/// The field of kind `kind` that the member `slot` carries; `None` when it
/// carries none. An optional field may be absent or `null`.
pub open spec fn field_read(slot: Option<Value>, kind: Kind) -> Option<Field> {
    match kind {
        Kind::Text => match slot {
            Some(x) => match json_str(x) {
                Some(s) => Some(Field::Text(s)),
                None => None,
            },
            None => None,
        },
        Kind::MaybeText => match slot {
            None => Some(Field::MaybeText(None)),
            Some(x) => match json_str(x) {
                Some(s) => Some(Field::MaybeText(Some(s))),
                None => if json_is_null(x) {
                    Some(Field::MaybeText(None))
                } else {
                    None
                },
            },
        },
        Kind::Texts => match slot {
            Some(x) => match texts_read(x) {
                Some(ss) => Some(Field::Texts(ss)),
                None => None,
            },
            None => None,
        },
        Kind::MaybeTexts => match slot {
            None => Some(Field::MaybeTexts(None)),
            Some(x) => match texts_read(x) {
                Some(ss) => Some(Field::MaybeTexts(Some(ss))),
                None => if json_is_null(x) {
                    Some(Field::MaybeTexts(None))
                } else {
                    None
                },
            },
        },
        Kind::Values => match slot {
            Some(x) => match json_items(x) {
                Some(vs) => Some(Field::Values(vs)),
                None => None,
            },
            None => None,
        },
        Kind::MaybeValue => match slot {
            None => Some(Field::MaybeValue(None)),
            Some(x) => if json_is_null(x) {
                Some(Field::MaybeValue(None))
            } else {
                Some(Field::MaybeValue(Some(x)))
            },
        },
    }
}

/// The fields that `schema` asks for, read from the members of `v`; `None`
/// when one of them is missing or of another kind. Other members are ignored.
pub open spec fn read_fields(v: Value, schema: Seq<(Seq<char>, Kind)>) -> Option<
    Seq<(Seq<char>, Field)>,
> {
    if forall|i: int|
        0 <= i < schema.len() ==> field_read(json_member(v, (#[trigger] schema[i]).0), schema[i].1)
            is Some {
        Some(
            schema.map_values(
                |p: (Seq<char>, Kind)| (p.0, field_read(json_member(v, p.0), p.1)->Some_0),
            ),
        )
    } else {
        None
    }
}

/// Whether `fields` has the names and kinds that `schema` lists, and no
/// explicit `null` for an optional value.
pub open spec fn conforms(fields: Seq<(Seq<char>, Field)>, schema: Seq<(Seq<char>, Kind)>) -> bool {
    &&& fields.len() == schema.len()
    &&& forall|i: int|
        0 <= i < fields.len() ==> (#[trigger] fields[i]).0 == schema[i].0 && kind_of(fields[i].1)
            == schema[i].1 && !holds_null(fields[i].1)
}

/// A field read back from where it was written is the same field.
pub proof fn lemma_field_round_trip(slot: Option<Value>, f: Field)
    requires
        field_written(slot, f),
        !holds_null(f),
    ensures
        field_read(slot, kind_of(f)) == Some(f),
{
    match f {
        Field::Texts(ss) => {
            let items = json_items(slot->Some_0)->Some_0;
            assert(items.map_values(|it: Value| json_str(it)->Some_0) =~= ss);
        },
        Field::MaybeTexts(Some(ss)) => {
            let items = json_items(slot->Some_0)->Some_0;
            assert(items.map_values(|it: Value| json_str(it)->Some_0) =~= ss);
        },
        _ => {},
    }
}

/// Fields written into an object under their names are read back as they
/// were, whatever else the object holds.
pub proof fn lemma_fields_round_trip(
    v: Value,
    fields: Seq<(Seq<char>, Field)>,
    schema: Seq<(Seq<char>, Kind)>,
)
    requires
        conforms(fields, schema),
        forall|i: int|
            0 <= i < fields.len() ==> field_written(
                json_member(v, (#[trigger] fields[i]).0),
                fields[i].1,
            ),
    ensures
        read_fields(v, schema) == Some(fields),
{
    assert forall|i: int| 0 <= i < schema.len() implies field_read(
        json_member(v, (#[trigger] schema[i]).0),
        schema[i].1,
    ) == Some(fields[i].1) by {
        assert(fields[i].0 == schema[i].0);
        lemma_field_round_trip(json_member(v, fields[i].0), fields[i].1);
    }
    let read = schema.map_values(
        |p: (Seq<char>, Kind)| (p.0, field_read(json_member(v, p.0), p.1)->Some_0),
    );
    assert(read =~= fields);
}

/// An array value of the given strings.
fn texts_value(v: &Vec<String>) -> (r: Value)
    ensures
        texts_written(r, texts_view(v@)),
{
    let mut items: Vec<Value> = Vec::new();
    let mut i: usize = 0;
    while i < v.len()
        invariant
            i <= v@.len(),
            items@.len() == i,
            forall|j: int| 0 <= j < i ==> json_str(#[trigger] items@[j]) == Some(v@[j]@),
        decreases v@.len() - i,
    {
        items.push(string_value(v[i].clone()));
        i = i + 1;
    }
    array_value(items)
}

/// A copy of a list of JSON values.
fn copy_values(v: &Vec<Value>) -> (r: Vec<Value>)
    ensures
        r@ == v@,
{
    let r = v.clone();
    assert(r@ =~= v@);
    r
}

/// Writes field `f` under `key` into an object under construction; an
/// absent optional field writes nothing.
pub fn put(m: &mut JsonObject<String, Value>, key: &str, f: FieldValue<'_>)
    requires
        !members_of(*old(m)).contains_key(key@),
    ensures
        field_written(entry(members_of(*final(m)), key@), f@),
        forall|k: Seq<char>|
            k != key@ ==> #[trigger] entry(members_of(*final(m)), k) == entry(
                members_of(*old(m)),
                k,
            ),
{
    let written = match f {
        FieldValue::Text(s) => Some(string_value(s.clone())),
        FieldValue::MaybeText(o) => match o {
            Some(s) => Some(string_value(s.clone())),
            None => None,
        },
        FieldValue::Texts(v) => Some(texts_value(v)),
        FieldValue::MaybeTexts(o) => match o {
            Some(v) => Some(texts_value(v)),
            None => None,
        },
        FieldValue::Values(v) => Some(array_value(copy_values(v))),
        FieldValue::MaybeValue(o) => match o {
            Some(x) => Some(x.clone()),
            None => None,
        },
    };
    match written {
        Some(x) => {
            let _ = m.insert(key.to_owned(), x);
        },
        None => {},
    }
}

/// The JSON object of a message with tag `tag` and the fields `fields`.
pub fn write_frame(tag: &str, fields: &Vec<(&str, FieldValue<'_>)>) -> (r: Value)
    requires
        forall|i: int| 0 <= i < fields@.len() ==> (#[trigger] fields@[i]).0@ != "msg"@,
        forall|i: int, j: int|
            0 <= i < j < fields@.len() ==> (#[trigger] fields@[i]).0@ != (#[trigger] fields@[j]).0@,
    ensures
        encodes(
            r,
            Frame { tag: tag@, fields: fields@.map_values(|p: (&str, FieldValue<'_>)| (p.0@, p.1@)) },
        ),
{
    let ghost fr = fields@.map_values(|p: (&str, FieldValue<'_>)| (p.0@, p.1@));
    let mut m = JsonObject::<String, Value>::new();
    let _ = m.insert("msg".to_owned(), string_value(tag.to_owned()));
    let mut i: usize = 0;
    while i < fields.len()
        invariant
            i <= fields@.len(),
            fr == fields@.map_values(|p: (&str, FieldValue<'_>)| (p.0@, p.1@)),
            forall|j: int| 0 <= j < fields@.len() ==> (#[trigger] fields@[j]).0@ != "msg"@,
            forall|a: int, b: int|
                0 <= a < b < fields@.len() ==> (#[trigger] fields@[a]).0@ != (#[trigger] fields@[b]).0@,
            entry(members_of(m), "msg"@) matches Some(t) && json_str(t) == Some(tag@),
            forall|j: int|
                0 <= j < i ==> field_written(
                    entry(members_of(m), (#[trigger] fr[j]).0),
                    fr[j].1,
                ),
            forall|k: Seq<char>|
                k != "msg"@ && !names(fr.take(i as int)).contains(k) ==> !members_of(m).contains_key(k),
        decreases fields@.len() - i,
    {
        let ghost before = members_of(m);
        assert(!names(fr.take(i as int)).contains(fr[i as int].0)) by {
            if names(fr.take(i as int)).contains(fr[i as int].0) {
                let j = choose|j: int| 0 <= j < i && names(fr.take(i as int))[j] == fr[i as int].0;
                assert(fields@[j].0@ == fields@[i as int].0@);
            }
        }
        put(&mut m, fields[i].0, fields[i].1);
        proof {
            assert forall|k: Seq<char>|
                k != "msg"@ && !names(fr.take(i + 1)).contains(k) implies !members_of(m).contains_key(k) by {
                let n1 = names(fr.take(i + 1));
                let n0 = names(fr.take(i as int));
                assert(n1[i as int] == fr[i as int].0);
                if n0.contains(k) {
                    let j = choose|j: int| 0 <= j < n0.len() && n0[j] == k;
                    assert(n1[j] == k);
                }
                if k != fr[i as int].0 {
                    assert(entry(members_of(m), k) == entry(before, k));
                }
            }
            assert forall|j: int| 0 <= j < i + 1 implies field_written(
                entry(members_of(m), (#[trigger] fr[j]).0),
                fr[j].1,
            ) by {
                if j < i {
                    assert(fr[j].0 != fr[i as int].0);
                }
            }
        }
        i = i + 1;
    }
    let r = object_value(m);
    assert(fr.take(fields@.len() as int) =~= fr);
    assert forall|k: Seq<char>| #[trigger] json_member(r, k) == entry(members_of(m), k) by {}
    r
}

/// The strings of an array of strings.
fn strings_of(x: &Value) -> (r: Option<Vec<String>>)
    ensures
        match texts_read(*x) {
            Some(ss) => r matches Some(v) && texts_view(v@) == ss,
            None => r is None,
        },
{
    let items = match x.as_array() {
        Some(items) => items,
        None => return None,
    };
    let mut out: Vec<String> = Vec::new();
    let mut i: usize = 0;
    while i < items.len()
        invariant
            i <= items@.len(),
            json_items(*x) == Some(items@),
            out@.len() == i,
            forall|j: int| 0 <= j < i ==> json_str(#[trigger] items@[j]) == Some(out@[j]@),
        decreases items@.len() - i,
    {
        match items[i].as_str() {
            Some(s) => out.push(s.to_owned()),
            None => return None,
        }
        i = i + 1;
    }
    assert(texts_view(out@) =~= items@.map_values(|it: Value| json_str(it)->Some_0));
    Some(out)
}

/// Reads a text field.
pub fn read_text(v: &Value, key: &str) -> (r: Option<String>)
    ensures
        match field_read(json_member(*v, key@), Kind::Text) {
            Some(f) => r matches Some(s) && f == Field::Text(s@),
            None => r is None,
        },
{
    match member(v, key) {
        Some(x) => match x.as_str() {
            Some(s) => Some(s.to_owned()),
            None => None,
        },
        None => None,
    }
}

/// Reads an optional text field; absent or `null` reads as `None`.
pub fn read_maybe_text(v: &Value, key: &str) -> (r: Option<Option<String>>)
    ensures
        match field_read(json_member(*v, key@), Kind::MaybeText) {
            Some(f) => r matches Some(o) && f == Field::MaybeText(maybe_text_view(o)),
            None => r is None,
        },
{
    match member(v, key) {
        Some(x) => match x.as_str() {
            Some(s) => Some(Some(s.to_owned())),
            None => if x.is_null() {
                Some(None)
            } else {
                None
            },
        },
        None => Some(None),
    }
}

/// Reads a field that is a list of texts.
pub fn read_texts(v: &Value, key: &str) -> (r: Option<Vec<String>>)
    ensures
        match field_read(json_member(*v, key@), Kind::Texts) {
            Some(f) => r matches Some(l) && f == Field::Texts(texts_view(l@)),
            None => r is None,
        },
{
    match member(v, key) {
        Some(x) => strings_of(x),
        None => None,
    }
}

/// Reads an optional field that is a list of texts.
pub fn read_maybe_texts(v: &Value, key: &str) -> (r: Option<Option<Vec<String>>>)
    ensures
        match field_read(json_member(*v, key@), Kind::MaybeTexts) {
            Some(f) => r matches Some(o) && f == Field::MaybeTexts(maybe_texts_view(o)),
            None => r is None,
        },
{
    match member(v, key) {
        Some(x) => match strings_of(x) {
            Some(l) => Some(Some(l)),
            None => if x.is_null() {
                Some(None)
            } else {
                None
            },
        },
        None => Some(None),
    }
}

/// Reads a field that is a list of JSON values.
pub fn read_values(v: &Value, key: &str) -> (r: Option<Vec<Value>>)
    ensures
        match field_read(json_member(*v, key@), Kind::Values) {
            Some(f) => r matches Some(l) && f == Field::Values(l@),
            None => r is None,
        },
{
    match member(v, key) {
        Some(x) => match x.as_array() {
            Some(items) => Some(copy_values(items)),
            None => None,
        },
        None => None,
    }
}

/// Reads an optional field that is a JSON value; absent or `null` reads as
/// `None`.
pub fn read_maybe_value(v: &Value, key: &str) -> (r: Option<Value>)
    ensures
        field_read(json_member(*v, key@), Kind::MaybeValue) == Some(Field::MaybeValue(r)),
{
    match member(v, key) {
        Some(x) => if x.is_null() {
            None
        } else {
            Some(x.clone())
        },
        None => None,
    }
}

} // verus!
