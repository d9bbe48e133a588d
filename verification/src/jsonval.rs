//! Trusted declarations for serde_json, which parses the service's JSON
//! responses, together with a mathematical model of what it parsed.
//!
//! A parsed `serde_json::Value` is opaque to the verifier; `view_of` names
//! its contents as a [`JsonView`], and each accessor wrapper states, over
//! that view, exactly what serde_json's accessor hands back. `json_view_of`
//! names the parse result itself, a function of the input text alone. The
//! verified decoding logic rests on these contracts only.

use vstd::prelude::*;

verus! {

/// The contents of a JSON value, as plain mathematical data. A number
/// carries its `u64` value when it has one (`Num(None)` is a number that
/// is negative, fractional or too large, which this client rejects where
/// it expects an unsigned integer).
pub enum JsonView {
    /// JSON `null`.
    Null,
    /// A JSON boolean.
    Bool(bool),
    /// A JSON number, with its value when it is an unsigned 64-bit integer.
    Num(Option<u64>),
    /// A JSON string.
    Str(Seq<char>),
    /// A JSON array.
    Arr(Seq<JsonView>),
    /// A JSON object, keyed by member name; duplicate keys keep the last.
    Obj(Map<Seq<char>, JsonView>),
}

/// serde_json's dynamically typed JSON value, held opaquely.
#[verifier::external_type_specification]
#[verifier::external_body]
pub struct ExValue(serde_json::Value);

/// serde_json's error type, held opaquely.
#[verifier::external_type_specification]
#[verifier::external_body]
pub struct ExError(serde_json::Error);

/// The contents of a parsed `serde_json::Value`, which the accessor
/// wrappers below read one layer at a time.
pub uninterp spec fn view_of(v: serde_json::Value) -> JsonView;

/// What serde_json::from_str::<Value> makes of a text: `Some` with the
/// parsed contents exactly when serde_json accepts the text as a JSON
/// document. Parsing is a function of the text alone.
pub uninterp spec fn json_view_of(s: Seq<char>) -> Option<JsonView>;

/// Whether serde_json accepts a text as a complete JSON document.
pub open spec fn is_json_text(s: Seq<char>) -> bool {
    json_view_of(s) is Some
}

/// Relies on serde_json::from_str::<Value>: deterministic in its input,
/// returning Ok exactly on the texts serde_json accepts as JSON; the
/// parsed value's contents are what the text denotes.
#[verifier::external_body]
pub(crate) fn json_parse(s: &str) -> (r: Result<serde_json::Value, serde_json::Error>)
    ensures
        r is Ok <==> is_json_text(s@),
        r matches Ok(v) ==> json_view_of(s@) == Some(view_of(v)),
{
    serde_json::from_str(s)
}

/// Relies on serde_json::Value::get with a string key: the member of a
/// JSON object under that key, or None when the value is no object or the
/// key is absent.
#[verifier::external_body]
pub(crate) fn json_get<'a>(v: &'a serde_json::Value, key: &str) -> (r: Option<
    &'a serde_json::Value,
>)
    ensures
        (match view_of(*v) {
            JsonView::Obj(o) => if o.contains_key(key@) {
                r matches Some(m) && view_of(*m) == o[key@]
            } else {
                r is None
            },
            _ => r is None,
        }),
{
    v.get(key)
}

/// Relies on serde_json::Value::as_str: the contents of a JSON string
/// value, and None for every other kind of value.
#[verifier::external_body]
pub(crate) fn json_as_str(v: &serde_json::Value) -> (r: Option<String>)
    ensures
        (match view_of(*v) {
            JsonView::Str(s) => r matches Some(x) && x@ == s,
            _ => r is None,
        }),
{
    v.as_str().map(str::to_string)
}

/// Relies on serde_json::Value::as_u64: the value of a JSON number that is
/// an unsigned 64-bit integer, and None otherwise.
#[verifier::external_body]
pub(crate) fn json_as_u64(v: &serde_json::Value) -> (r: Option<u64>)
    ensures
        (match view_of(*v) {
            JsonView::Num(n) => r == n,
            _ => r is None,
        }),
{
    v.as_u64()
}

/// Relies on serde_json::Value::as_bool: the value of a JSON boolean, and
/// None for every other kind of value.
#[verifier::external_body]
pub(crate) fn json_as_bool(v: &serde_json::Value) -> (r: Option<bool>)
    ensures
        (match view_of(*v) {
            JsonView::Bool(b) => r == Some(b),
            _ => r is None,
        }),
{
    v.as_bool()
}

/// Relies on serde_json::Value::is_null: whether the value is JSON null.
#[verifier::external_body]
pub(crate) fn json_is_null(v: &serde_json::Value) -> (r: bool)
    ensures
        r == (view_of(*v) matches JsonView::Null),
{
    v.is_null()
}

/// Relies on serde_json::Value::as_array: the elements of a JSON array,
/// in order, and None for every other kind of value.
#[verifier::external_body]
pub(crate) fn json_as_array(v: &serde_json::Value) -> (r: Option<&Vec<serde_json::Value>>)
    ensures
        (match view_of(*v) {
            JsonView::Arr(s) => r matches Some(a) && a@.len() == s.len() && (forall|i: int|
                0 <= i < s.len() ==> view_of(#[trigger] a@[i]) == s[i]),
            _ => r is None,
        }),
{
    v.as_array()
}

} // verus!
