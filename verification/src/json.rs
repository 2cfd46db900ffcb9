use vstd::prelude::*;

verus! {

/// `serde_json::Value`, declared so it can stand in signatures. A value of
/// it is opaque here; `model_of` gives its contents, and the accessors below
/// are specified against that model.
#[verifier::external_type_specification]
#[verifier::external_body]
pub struct ExValue(serde_json::Value);

/// `serde_json::Error`, the error of parsing and serialising. Opaque; the
/// callers map it to this crate's own error type.
#[verifier::external_type_specification]
#[verifier::external_body]
pub struct ExJsonError(serde_json::Error);

/// The shape of one JSON value, as this library models the contents of an
/// opaque `serde_json::Value`. A number carries its reading as a `u64` where
/// one exists — all this wire format ever reads of a number. An object
/// collapses to a map from key to value, as the parser itself collapses
/// duplicate keys.
pub enum Jv {
    Null,
    Bool(bool),
    Num(Option<u64>),
    Str(Seq<char>),
    Arr(Seq<Jv>),
    Obj(Map<Seq<char>, Jv>),
}

/// What `serde_json::from_str` makes of a text: `None` when it fails to
/// parse, otherwise the model of the parsed value. Parsing depends on the
/// text alone.
pub uninterp spec fn json_of(s: Seq<char>) -> Option<Jv>;

/// The contents of one opaque parsed value.
pub uninterp spec fn model_of(v: serde_json::Value) -> Jv;

/// Relies on serde_json::from_str: parses a string as one JSON value, or
/// fails; both the verdict and the parsed contents are functions of the text
/// alone.
#[verifier::external_body]
pub(crate) fn json_parse(s: &str) -> (r: Result<serde_json::Value, serde_json::Error>)
    ensures
        r is Ok <==> json_of(s@) is Some,
        r matches Ok(v) ==> Some(model_of(v)) == json_of(s@),
{
    serde_json::from_str(s)
}

/// Relies on serde_json::Value::get with a string index: on an object, the
/// value under the key when the object has it; `None` on everything else.
#[verifier::external_body]
pub(crate) fn json_get<'a>(v: &'a serde_json::Value, key: &str) -> (r: Option<
    &'a serde_json::Value,
>)
    ensures
        model_of(*v) matches Jv::Obj(m) ==> ((r is Some <==> m.dom().contains(key@)) && (
        r matches Some(u) ==> m.dom().contains(key@) && model_of(*u) == m[key@])),
        !(model_of(*v) matches Jv::Obj(_)) ==> r is None,
{
    v.get(key)
}

/// Relies on serde_json::Value::as_str: the borrowed string when `v` is a
/// JSON string, `None` otherwise.
#[verifier::external_body]
pub(crate) fn json_as_str<'a>(v: &'a serde_json::Value) -> (r: Option<&'a str>)
    ensures
        model_of(*v) matches Jv::Str(t) ==> r is Some && r->Some_0@ == t,
        !(model_of(*v) matches Jv::Str(_)) ==> r is None,
{
    v.as_str()
}

/// Relies on serde_json::Value::as_u64: the number's value when `v` is a
/// JSON number representable as a u64, `None` otherwise — exactly the `u64`
/// reading the model carries.
#[verifier::external_body]
pub(crate) fn json_as_u64(v: &serde_json::Value) -> (r: Option<u64>)
    ensures
        model_of(*v) matches Jv::Num(reading) ==> r == reading,
        !(model_of(*v) matches Jv::Num(_)) ==> r is None,
{
    v.as_u64()
}

/// Relies on serde_json::Value::as_array: the borrowed elements, in order,
/// when `v` is a JSON array, `None` otherwise.
#[verifier::external_body]
pub(crate) fn json_as_array<'a>(v: &'a serde_json::Value) -> (r: Option<&'a Vec<serde_json::Value>>)
    ensures
        model_of(*v) matches Jv::Arr(elems) ==> r is Some && r->Some_0@.map_values(
            |x: serde_json::Value| model_of(x),
        ) == elems,
        !(model_of(*v) matches Jv::Arr(_)) ==> r is None,
{
    v.as_array()
}

/// Relies on serde_json::Value's Clone: an owned copy of a borrowed value,
/// with the same contents.
#[verifier::external_body]
pub(crate) fn json_clone(v: &serde_json::Value) -> (r: serde_json::Value)
    ensures
        model_of(r) == model_of(*v),
{
    v.clone()
}

/// Relies on serde_json::to_string: renders a value back to JSON text. It
/// cannot fail on a `Value`: serialisation fails only on maps with
/// non-string keys, which a `Value` cannot hold.
#[verifier::external_body]
pub(crate) fn json_render(v: &serde_json::Value) -> (r: Result<String, serde_json::Error>)
    ensures
        r is Ok,
{
    serde_json::to_string(v)
}

} // verus!
