use vstd::prelude::*;

verus! {

/// Mathematical model of a JSON document.
pub enum Json {
    Null,
    Bool(bool),
    /// A number, as the IEEE-754 bit pattern of the 64-bit floating point
    /// value it reads as.
    Num(u64),
    Str(Seq<char>),
    Arr(Seq<Json>),
    Obj(Map<Seq<char>, Json>),
}

/// serde_json's dynamically typed JSON value, declared so that verified code
/// can carry one and read it through the trusted accessors below.
#[verifier::external_type_specification]
#[verifier::external_body]
pub struct ExValue(serde_json::Value);

/// The JSON document that a serde_json value denotes.
pub uninterp spec fn json_view(v: serde_json::Value) -> Json;

/// What serde_json's parser makes of a text: the denoted document, or nothing
/// where the text is not one valid JSON document.
pub uninterp spec fn json_of(s: Seq<char>) -> Option<Json>;

/// Relies on `serde_json::from_str::<serde_json::Value>`: parses the text as
/// one JSON document; the result is a function of the text alone.
#[verifier::external_body]
pub(crate) fn parse_json(s: &str) -> (r: Option<serde_json::Value>)
    ensures
        match r {
            Some(v) => json_of(s@) == Some(json_view(v)),
            None => json_of(s@) is None,
        },
{
    serde_json::from_str::<serde_json::Value>(s).ok()
}

/// Relies on `serde_json::Value::get` with a string index: on an object it
/// looks the key up, on every other value it yields nothing.
#[verifier::external_body]
pub(crate) fn value_get<'a>(v: &'a serde_json::Value, key: &str) -> (r: Option<
    &'a serde_json::Value,
>)
    ensures
        match json_view(*v) {
            Json::Obj(m) => match r {
                Some(x) => m.contains_key(key@) && json_view(*x) == m[key@],
                None => !m.contains_key(key@),
            },
            _ => r is None,
        },
{
    v.get(key)
}

/// Relies on `serde_json::Value::as_bool`: the boolean a boolean value holds,
/// nothing on every other value.
#[verifier::external_body]
pub(crate) fn value_as_bool(v: &serde_json::Value) -> (r: Option<bool>)
    ensures
        r == match json_view(*v) {
            Json::Bool(b) => Some(b),
            _ => None::<bool>,
        },
{
    v.as_bool()
}

/// Relies on `serde_json::Value::is_null`: whether the value is the JSON
/// null.
#[verifier::external_body]
pub(crate) fn value_is_null(v: &serde_json::Value) -> (r: bool)
    ensures
        r == (json_view(*v) is Null),
{
    v.is_null()
}

/// Relies on `serde_json::Value::as_str`: the text a string value holds,
/// nothing on every other value.
#[verifier::external_body]
pub(crate) fn value_as_str<'a>(v: &'a serde_json::Value) -> (r: Option<&'a str>)
    ensures
        match json_view(*v) {
            Json::Str(s) => r matches Some(t) && t@ == s,
            _ => r is None,
        },
{
    v.as_str()
}

/// Relies on `serde_json::Value::as_f64` and `f64::to_bits`: the bit pattern
/// of the 64-bit floating point number a JSON number reads as, nothing on
/// every other value.
#[verifier::external_body]
pub(crate) fn value_number_bits(v: &serde_json::Value) -> (r: Option<u64>)
    ensures
        r == match json_view(*v) {
            Json::Num(b) => Some(b),
            _ => None::<u64>,
        },
{
    v.as_f64().map(|p| p.to_bits())
}

/// Relies on `serde_json::Value::as_object` and `serde_json::Map`'s
/// iteration: an object's entries, each key exactly once with the value it
/// maps to, every key of the object among them; nothing on every other value.
#[verifier::external_body]
pub(crate) fn value_object_entries(v: &serde_json::Value) -> (r: Option<
    Vec<(String, serde_json::Value)>,
>)
    ensures
        match json_view(*v) {
            Json::Obj(m) => match r {
                Some(es) => {
                    &&& forall|i: int| #![auto]
                        0 <= i < es@.len() ==> m.contains_key(es@[i].0@) && json_view(es@[i].1)
                            == m[es@[i].0@]
                    &&& forall|k: Seq<char>| #[trigger]
                        m.contains_key(k) ==> exists|i: int|
                            0 <= i < es@.len() && es@[i].0@ == k
                    &&& forall|i: int, j: int| #![auto]
                        0 <= i < j < es@.len() ==> es@[i].0@ != es@[j].0@
                },
                None => false,
            },
            _ => r is None,
        },
{
    match v.as_object() {
        Some(m) => Some(m.iter().map(|(k, x)| (k.clone(), x.clone())).collect()),
        None => None,
    }
}

} // verus!
