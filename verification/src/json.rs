//! JSON documents, as far as the inference proxy looks into them.

use vstd::prelude::*;

verus! {

/// A JSON value that a library made and that only the library can look into.
#[verifier::external_type_specification]
#[verifier::external_body]
pub struct ExJsonValue(serde_json::Value);

/// A member of a JSON object.
pub enum JsonMember {
    /// A string, by its characters.
    Text(Seq<char>),
    /// Anything else, by its compact JSON text.
    Other(Seq<u8>),
}

/// A JSON document.
pub enum JsonDoc {
    /// An object, by its members.
    Object(Map<Seq<char>, JsonMember>),
    /// Anything else, by its compact JSON text.
    Other(Seq<u8>),
}

/// What a `serde_json::Value` holds.
pub uninterp spec fn json_doc(value: serde_json::Value) -> JsonDoc;

/// The document that `serde_json::from_slice` reads from `bytes`. `None`: it reads none.
pub uninterp spec fn json_read(bytes: Seq<u8>) -> Option<JsonDoc>;

/// The text that `serde_json::to_vec` writes for a document.
pub uninterp spec fn json_text(doc: JsonDoc) -> Seq<u8>;

/// The string that an object has as its member `name`.
pub open spec fn text_member(doc: JsonDoc, name: Seq<char>) -> Option<Seq<char>> {
    match doc {
        JsonDoc::Object(members) => if members.dom().contains(name) {
            match members[name] {
                JsonMember::Text(s) => Some(s),
                JsonMember::Other(_) => None,
            }
        } else {
            None
        },
        JsonDoc::Other(_) => None,
    }
}

/// Whether two documents have the same strings as members of the same names.
pub open spec fn same_strings(a: JsonDoc, b: JsonDoc) -> bool {
    forall|name: Seq<char>| #[trigger] text_member(a, name) == text_member(b, name)
}

/// `serde_json::from_slice` into a `serde_json::Value`: the document that the bytes write, none
/// where they write none.
#[verifier::external_body]
pub(crate) fn parse(bytes: &[u8]) -> (r: Option<serde_json::Value>)
    ensures
        r is Some <==> json_read(bytes@) is Some,
        r matches Some(v) ==> json_read(bytes@) == Some(json_doc(v)),
{
    serde_json::from_slice(bytes).ok()
}

/// `serde_json::Value::is_object`: whether the value is an object.
#[verifier::external_body]
pub(crate) fn is_object(value: &serde_json::Value) -> (r: bool)
    ensures
        r == (json_doc(*value) is Object),
{
    value.is_object()
}

/// `serde_json::Map::insert` on the object that `serde_json::Value::as_object_mut` gives out: the
/// member `name` becomes the string `text`, the others stay.
#[verifier::external_body]
pub(crate) fn set_text(value: &mut serde_json::Value, name: &str, text: &str)
    requires
        json_doc(*old(value)) is Object,
    ensures
        json_doc(*final(value)) == JsonDoc::Object(
            json_doc(*old(value))->Object_0.insert(name@, JsonMember::Text(text@)),
        ),
{
    if let Some(object) = value.as_object_mut() {
        object.insert(name.to_string(), serde_json::Value::String(text.to_string()));
    }
}

/// `serde_json::to_vec` of a `serde_json::Value`, which always succeeds: the compact text of the
/// value. Where `serde_json::from_slice` reads a document from the text, it is one with the same
/// strings. Whether it reads the numbers back to the last bit, and so whether it reads them at
/// all, is left unsaid.
#[verifier::external_body]
pub(crate) fn write(value: &serde_json::Value) -> (r: Option<Vec<u8>>)
    ensures
        r is Some,
        r->0@ == json_text(json_doc(*value)),
        json_read(r->0@) is Some ==> same_strings(json_read(r->0@)->0, json_doc(*value)),
{
    serde_json::to_vec(value).ok()
}

/// The string that a document has under a name is the one that its member of that name is; a member
/// that is no string, no member of that name, or a document that is no object has none.
pub proof fn law_text_members_are_strings(
    members: Map<Seq<char>, JsonMember>,
    name: Seq<char>,
    s: Seq<char>,
    other: Seq<u8>,
)
    ensures
        text_member(JsonDoc::Object(members), name) == Some(s) <==> members.dom().contains(name)
            && members[name] == JsonMember::Text(s),
        text_member(JsonDoc::Other(other), name) is None,
{
}

} // verus!
