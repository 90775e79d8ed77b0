//! JSON values, as serde_json holds them. The library reads and builds them
//! only through the operations below, whose results are named here.

use vstd::prelude::*;
use serde_json::Map as JsonObject;
use serde_json::Value;

verus! {

#[verifier::external_type_specification]
#[verifier::external_body]
pub struct ExValue(Value);

#[verifier::external_type_specification]
#[verifier::external_body]
#[verifier::reject_recursive_types(K)]
#[verifier::reject_recursive_types(V)]
pub struct ExJsonObject<K, V>(JsonObject<K, V>);

/// The object that JSON objects are made from.
pub type Members = JsonObject<String, Value>;

/// The text of a JSON string value (what `Value::as_str` returns).
pub uninterp spec fn json_str(v: Value) -> Option<Seq<char>>;

/// The items of a JSON array value (what `Value::as_array` returns).
pub uninterp spec fn json_items(v: Value) -> Option<Seq<Value>>;

/// Whether a value is JSON `null` (what `Value::is_null` returns).
pub uninterp spec fn json_is_null(v: Value) -> bool;

/// Whether a value is a JSON object (what `Value::is_object` returns).
pub uninterp spec fn json_is_object(v: Value) -> bool;

/// The number of a JSON value that is an unsigned integer (what
/// `Value::as_u64` returns).
pub uninterp spec fn json_u64(v: Value) -> Option<u64>;

/// The member of a JSON object under `key` (what `Value::get` returns for a
/// string key).
pub uninterp spec fn json_member(v: Value, key: Seq<char>) -> Option<Value>;

/// The entries of an object under construction.
pub uninterp spec fn members_of(m: Members) -> Map<Seq<char>, Value>;

/// The compact JSON text of a value (what its `Display` writes).
pub uninterp spec fn json_text(v: Value) -> Seq<char>;

/// The indented JSON text of a value (what its alternate `Display` writes).
pub uninterp spec fn json_pretty_text(v: Value) -> Seq<char>;

/// The value that a JSON text denotes, if it is one (what
/// `serde_json::from_str` returns).
pub uninterp spec fn json_parse(s: Seq<char>) -> Option<Value>;

/// Relies on serde_json::Value::as_str: the text of a string value.
pub assume_specification[ Value::as_str ](v: &Value) -> (r: Option<&str>)
    ensures
        match r {
            Some(s) => json_str(*v) == Some(s@),
            None => json_str(*v) is None,
        },
;

/// Relies on serde_json::Value::as_array: the items of an array value.
pub assume_specification[ Value::as_array ](v: &Value) -> (r: Option<&Vec<Value>>)
    ensures
        match r {
            Some(a) => json_items(*v) == Some(a@),
            None => json_items(*v) is None,
        },
;

/// Relies on serde_json::Value::is_null.
pub assume_specification[ Value::is_null ](v: &Value) -> (r: bool)
    ensures
        r == json_is_null(*v),
;

/// Relies on serde_json::Value::is_object.
pub assume_specification[ Value::is_object ](v: &Value) -> (r: bool)
    ensures
        r == json_is_object(*v),
;

/// Relies on serde_json::Value::as_u64.
pub assume_specification[ Value::as_u64 ](v: &Value) -> (r: Option<u64>)
    ensures
        r == json_u64(*v),
;

/// Relies on the derived `Clone` of serde_json::Value: a copy is the same value.
pub assume_specification[ <Value as Clone>::clone ](v: &Value) -> (r: Value)
    ensures
        r == *v,
;

/// Relies on serde_json::Map::new: a new object has no entry.
pub assume_specification[ JsonObject::<String, Value>::new ]() -> (r: JsonObject<String, Value>)
    ensures
        members_of(r).dom() =~= Set::empty(),
;

/// Relies on serde_json::Map::insert: the entry under `k` becomes `v`.
pub assume_specification[ JsonObject::<String, Value>::insert ](
    m: &mut JsonObject<String, Value>,
    k: String,
    v: Value,
) -> (r: Option<Value>)
    ensures
        members_of(*final(m)) == members_of(*old(m)).insert(k@, v),
;

/// Relies on serde_json::Value::get with a string key: the member under
/// that key, if the value is an object that has one.
#[verifier::external_body]
pub(crate) fn member<'a>(v: &'a Value, key: &str) -> (r: Option<&'a Value>)
    ensures
        match r {
            Some(x) => json_member(*v, key@) == Some(*x),
            None => json_member(*v, key@) is None,
        },
{
    v.get(key)
}

/// Relies on serde_json::Value::Object, read back by Value::is_object,
/// Value::is_null and Value::get: the members of the value are the
/// entries of `m`.
#[verifier::external_body]
pub(crate) fn object_value(m: Members) -> (r: Value)
    ensures
        json_is_object(r),
        !json_is_null(r),
        forall|k: Seq<char>| #[trigger]
            json_member(r, k) == if members_of(m).contains_key(k) {
                Some(members_of(m)[k])
            } else {
                None
            },
{
    Value::Object(m)
}

/// Relies on serde_json::Value::String, read back by Value::as_str and
/// Value::is_null.
#[verifier::external_body]
pub(crate) fn string_value(s: String) -> (r: Value)
    ensures
        json_str(r) == Some(s@),
        !json_is_null(r),
{
    Value::String(s)
}

/// Relies on serde_json::Value::Array, read back by Value::as_array and
/// Value::is_null.
#[verifier::external_body]
pub(crate) fn array_value(items: Vec<Value>) -> (r: Value)
    ensures
        json_items(r) == Some(items@),
        !json_is_null(r),
{
    Value::Array(items)
}

/// Relies on serde_json::Value::Null, read back by Value::is_null.
#[verifier::external_body]
pub(crate) fn null_value() -> (r: Value)
    ensures
        json_is_null(r),
{
    Value::Null
}

/// Relies on serde_json's `From<u64>` for Value, read back by Value::as_u64
/// and Value::is_null.
#[verifier::external_body]
pub(crate) fn number_value(n: u64) -> (r: Value)
    ensures
        json_u64(r) == Some(n),
        !json_is_null(r),
{
    Value::from(n)
}

/// Relies on the `Display` of serde_json::Value: its compact JSON text.
#[verifier::external_body]
pub(crate) fn to_text(v: &Value) -> (r: String)
    ensures
        r@ == json_text(*v),
{
    v.to_string()
}

/// Relies on the alternate `Display` of serde_json::Value: its indented JSON
/// text, as serde_json::to_string_pretty writes it.
#[verifier::external_body]
pub(crate) fn to_pretty_text(v: &Value) -> (r: String)
    ensures
        r@ == json_pretty_text(*v),
{
    format!("{:#}", v)
}

/// Relies on serde_json::from_str: the value that `s` denotes, if `s` is
/// JSON text.
#[verifier::external_body]
pub(crate) fn parse_text(s: &str) -> (r: Option<Value>)
    ensures
        r == json_parse(s@),
{
    serde_json::from_str(s).ok()
}

} // verus!
