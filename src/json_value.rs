//! JSON values, through the json crate: the string members of an object, and
//! arrays as read from and written to text.
use vstd::prelude::*;

verus! {

#[verifier::external_type_specification]
#[verifier::external_body]
pub struct ExJsonValue(json::JsonValue);

/// The members of a JSON value that hold strings, by key: empty unless the
/// value is an object.
pub uninterp spec fn json_strings(v: json::JsonValue) -> Map<Seq<char>, Seq<char>>;

/// Whether a JSON value is an object whose members all hold strings.
pub uninterp spec fn json_string_object(v: json::JsonValue) -> bool;

/// Relies on json's `JsonValue::new_object`: an object with no members.
#[verifier::external_body]
pub(crate) fn new_object() -> (r: json::JsonValue)
    ensures
        json_strings(r) =~= map![],
        json_string_object(r),
{
    json::JsonValue::new_object()
}

/// Relies on json's `IndexMut<&str>` for `JsonValue`: the member under `key` is
/// set to the string (a value that is no object first becomes an empty one).
#[verifier::external_body]
pub(crate) fn set_string(v: &mut json::JsonValue, key: &str, val: &str)
    ensures
        json_strings(*final(v)) == json_strings(*old(v)).insert(key@, val@),
        json_string_object(*old(v)) ==> json_string_object(*final(v)),
{
    v[key] = json::JsonValue::from(val);
}

/// Relies on json's `Index<&str>` and `JsonValue::as_str`: the member under
/// `key` where the value is an object that has it and it is a string.
#[verifier::external_body]
pub(crate) fn get_string(v: &json::JsonValue, key: &str) -> (r: Option<String>)
    ensures
        match r {
            Some(s) => json_strings(*v).contains_key(key@) && s@ == json_strings(*v)[key@],
            None => !json_strings(*v).contains_key(key@),
        },
{
    v[key].as_str().map(|s| s.to_string())
}

/// Whether `json::parse` accepts the text.
pub uninterp spec fn json_reads(t: Seq<char>) -> bool;

/// The string members of each element of the array that `json::parse` reads
/// from the text, in order (none where it reads no array).
pub uninterp spec fn json_array_records(t: Seq<char>) -> Seq<Map<Seq<char>, Seq<char>>>;

/// Relies on `json::parse` and `JsonValue::members`: `None` where the text is
/// not JSON, else the elements of the array it holds (none for another value).
/// Both depend on the text alone.
#[verifier::external_body]
pub(crate) fn parse_records(t: &str) -> (r: Option<Vec<json::JsonValue>>)
    ensures
        r is Some <==> json_reads(t@),
        r matches Some(vs) ==> vs@.map_values(|v: json::JsonValue| json_strings(v))
            == json_array_records(t@),
{
    json::parse(t).ok().map(|v| v.members().cloned().collect())
}

/// Relies on `json::stringify` of a `JsonValue::Array`: the compact JSON text
/// of an array of the values, in order. For objects whose members are all
/// strings (two levels of nesting, far below the parser's depth limit),
/// `json::parse` reads it back to an array whose elements have the same string
/// members. The text holds at least the brackets.
#[verifier::external_body]
pub(crate) fn array_text(items: Vec<json::JsonValue>) -> (r: String)
    requires
        forall|i: int| 0 <= i < items@.len() ==> json_string_object(#[trigger] items@[i]),
    ensures
        r@.len() > 0,
        json_reads(r@),
        json_array_records(r@) == items@.map_values(|v: json::JsonValue| json_strings(v)),
{
    json::stringify(json::JsonValue::Array(items))
}

} // verus!
