//! Reading JSON documents, through serde_json.

use vstd::prelude::*;
use crate::text::{substitute, substituted};

verus! {

/// What a JSON document holds at a pointer, as far as this library reads it:
/// a string, the keys of an object (in the map's order), or something else.
pub enum JsonItem {
    Text(String),
    Object(Vec<String>),
    Other,
}

pub enum JsonItemView {
    Text(Seq<char>),
    Object(Seq<Seq<char>>),
    Other,
}

pub open spec fn item_view(i: JsonItem) -> JsonItemView {
    match i {
        JsonItem::Text(s) => JsonItemView::Text(s@),
        JsonItem::Object(ks) => JsonItemView::Object(ks@.map_values(|k: String| k@)),
        JsonItem::Other => JsonItemView::Other,
    }
}

pub open spec fn opt_item_view(o: Option<JsonItem>) -> Option<JsonItemView> {
    match o {
        Some(i) => Some(item_view(i)),
        None => None,
    }
}

/// What `text`, read as a JSON document, holds at the JSON pointer `pointer`:
/// `None` where it is not JSON or nothing is there.
pub uninterp spec fn json_item(text: Seq<char>, pointer: Seq<char>) -> Option<JsonItemView>;

/// Relies on `serde_json::from_str` into a `Value` and `Value::pointer`: the
/// value at the pointer, told apart by its variant; an object gives its keys
/// (`Map::keys`). All of it is a function of the two texts.
#[verifier::external_body]
pub(crate) fn read_json_item(text: &str, pointer: &str) -> (r: Option<JsonItem>)
    ensures
        opt_item_view(r) == json_item(text@, pointer@),
{
    let doc: serde_json::Value = serde_json::from_str(text).ok()?;
    match doc.pointer(pointer)? {
        serde_json::Value::String(s) => Some(JsonItem::Text(s.clone())),
        serde_json::Value::Object(m) => Some(JsonItem::Object(m.keys().cloned().collect())),
        _ => Some(JsonItem::Other),
    }
}

/// The string at a pointer, if a string is there.
pub open spec fn text_at(text: Seq<char>, pointer: Seq<char>) -> Option<Seq<char>> {
    match json_item(text, pointer) {
        Some(JsonItemView::Text(s)) => Some(s),
        _ => None,
    }
}

/// The keys of the object at a pointer, if an object is there.
pub open spec fn keys_at(text: Seq<char>, pointer: Seq<char>) -> Option<Seq<Seq<char>>> {
    match json_item(text, pointer) {
        Some(JsonItemView::Object(ks)) => Some(ks),
        _ => None,
    }
}

pub fn read_text(text: &str, pointer: &str) -> (r: Option<String>)
    ensures
        match r {
            Some(s) => text_at(text@, pointer@) == Some(s@),
            None => text_at(text@, pointer@) is None,
        },
{
    match read_json_item(text, pointer) {
        Some(JsonItem::Text(s)) => Some(s),
        _ => None,
    }
}

pub fn read_keys(text: &str, pointer: &str) -> (r: Option<Vec<String>>)
    ensures
        match r {
            Some(ks) => keys_at(text@, pointer@) == Some(ks@.map_values(|k: String| k@)),
            None => keys_at(text@, pointer@) is None,
        },
{
    match read_json_item(text, pointer) {
        Some(JsonItem::Object(ks)) => Some(ks),
        _ => None,
    }
}

/// A key escaped as a JSON pointer token: `~` as `~0`, `/` as `~1`.
pub open spec fn pointer_token(key: Seq<char>) -> Seq<char> {
    substituted(key, '~', "~0"@, '/', "~1"@)
}

pub fn pointer_token_of(key: &str) -> (r: String)
    ensures
        r@ == pointer_token(key@),
{
    substitute(key, '~', "~0", '/', "~1")
}

/// The pointer to a member of a top-level object.
pub open spec fn member_pointer(field: Seq<char>) -> Seq<char> {
    "/"@ + pointer_token(field)
}

pub fn member_pointer_of(field: &str) -> (r: String)
    ensures
        r@ == member_pointer(field@),
{
    let mut p = String::from_str("/");
    let t = pointer_token_of(field);
    p.append(t.as_str());
    p
}

/// The pointer to a member of an object that is itself a member of the top-level object.
pub open spec fn nested_pointer(field: Seq<char>, key: Seq<char>) -> Seq<char> {
    member_pointer(field) + member_pointer(key)
}

pub fn nested_pointer_of(field: &str, key: &str) -> (r: String)
    ensures
        r@ == nested_pointer(field@, key@),
{
    let mut p = member_pointer_of(field);
    let q = member_pointer_of(key);
    p.append(q.as_str());
    p
}

} // verus!
