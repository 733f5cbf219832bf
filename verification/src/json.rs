//! JSON, read and written by `serde_json`. The library sees a JSON object as
//! the list of its members, each with the text that stands for its value.

use vstd::prelude::*;

verus! {

/// What kind of value a member of a JSON object has.
#[derive(Debug, Clone, Copy, PartialEq, Eq, Structural)]
pub enum JsonKind {
    /// A string.
    Text,
    /// An object.
    Object,
    /// Anything else: `null`, a boolean, a number or an array.
    Other,
}

/// One member of a JSON object. For a string, `body` is the string itself; for
/// any other value, it is the value written as compact JSON.
#[derive(Debug, Clone, PartialEq, Eq)]
pub struct JsonMember {
    pub key: String,
    pub kind: JsonKind,
    pub body: String,
}

/// A member of a JSON object, as sequences of characters.
pub struct JsonMemberView {
    pub key: Seq<char>,
    pub kind: JsonKind,
    pub body: Seq<char>,
}

impl View for JsonMember {
    type V = JsonMemberView;

    open spec fn view(&self) -> JsonMemberView {
        JsonMemberView { key: self.key@, kind: self.kind, body: self.body@ }
    }
}

/// The views of a list of members.
pub open spec fn member_views(members: Seq<JsonMember>) -> Seq<JsonMemberView> {
    Seq::new(members.len(), |i: int| members[i]@)
}

/// What a JSON text holds at its top: an object, by its members, or an
/// array, by its elements, each written as compact JSON.
#[derive(Debug, Clone, PartialEq, Eq)]
pub enum JsonDocument {
    Object(Vec<JsonMember>),
    Array(Vec<String>),
}

/// A document, as sequences of characters.
pub enum JsonDocumentView {
    Object(Seq<JsonMemberView>),
    Array(Seq<Seq<char>>),
}

impl View for JsonDocument {
    type V = JsonDocumentView;

    open spec fn view(&self) -> JsonDocumentView {
        match self {
            JsonDocument::Object(members) => JsonDocumentView::Object(member_views(members@)),
            JsonDocument::Array(items) => JsonDocumentView::Array(crate::args::texts(items@)),
        }
    }
}

/// The object or array that `text` holds, as `serde_json` reads it and writes
/// its parts; `None` where `text` is not JSON or holds another kind of value.
pub uninterp spec fn json_document(text: Seq<char>) -> Option<JsonDocumentView>;

/// `text` written as a JSON string, as `serde_json` writes it.
pub uninterp spec fn json_quoted(text: Seq<char>) -> Seq<char>;

/// The members of the JSON object that `text` holds; `None` where `text`
/// holds no object.
pub open spec fn json_members(text: Seq<char>) -> Option<Seq<JsonMemberView>> {
    match json_document(text) {
        Some(JsonDocumentView::Object(members)) => Some(members),
        _ => None,
    }
}

/// The elements of the JSON array that `text` holds, each written as compact
/// JSON; `None` where `text` holds no array.
pub open spec fn json_elements(text: Seq<char>) -> Option<Seq<Seq<char>>> {
    match json_document(text) {
        Some(JsonDocumentView::Array(items)) => Some(items),
        _ => None,
    }
}

/// Reads `text` with `serde_json::from_str` as a `serde_json::Value`. Of an
/// object it hands out the members in the order of the object's map, a string
/// by its content and any other value as `Value`'s `Display` writes it; of an
/// array the elements in their order, each as `Display` writes it. Nothing
/// more is claimed than that the result is fixed by `text`.
#[verifier::external_body]
fn read_json(text: &str) -> (r: Option<JsonDocument>)
    ensures
        match r {
            Some(document) => json_document(text@) == Some(document@),
            None => json_document(text@) is None,
        },
{
    match serde_json::from_str::<serde_json::Value>(text) {
        Ok(serde_json::Value::Object(map)) => Some(JsonDocument::Object(map.into_iter().map(|(key, value)| match value {
            serde_json::Value::String(s) => JsonMember { key, kind: JsonKind::Text, body: s },
            serde_json::Value::Object(_) => JsonMember { key, kind: JsonKind::Object, body: value.to_string() },
            _ => JsonMember { key, kind: JsonKind::Other, body: value.to_string() },
        }).collect())),
        Ok(serde_json::Value::Array(items)) => Some(JsonDocument::Array(items.iter().map(|v| v.to_string()).collect())),
        _ => None,
    }
}

/// Writes `text` as a JSON string, quotes and escapes included, through
/// `Display` of `serde_json::Value::String`.
#[verifier::external_body]
pub(crate) fn quote(text: &str) -> (r: String)
    ensures
        r@ == json_quoted(text@),
{
    serde_json::Value::String(text.to_string()).to_string()
}

/// The members of the JSON object that `text` holds.
pub fn read_members(text: &str) -> (r: Option<Vec<JsonMember>>)
    ensures
        match r {
            Some(members) => json_members(text@) == Some(member_views(members@)),
            None => json_members(text@) is None,
        },
{
    match read_json(text) {
        Some(JsonDocument::Object(members)) => Some(members),
        _ => None,
    }
}

/// The elements of the JSON array that `text` holds, each written as compact
/// JSON.
pub fn read_elements(text: &str) -> (r: Option<Vec<String>>)
    ensures
        match r {
            Some(items) => json_elements(text@) == Some(crate::args::texts(items@)),
            None => json_elements(text@) is None,
        },
{
    match read_json(text) {
        Some(JsonDocument::Array(items)) => Some(items),
        _ => None,
    }
}

/// The first member with the given key.
pub open spec fn member_named(members: Seq<JsonMemberView>, key: Seq<char>) -> Option<
    JsonMemberView,
>
    decreases members.len(),
{
    if members.len() == 0 {
        None
    } else if members[0].key == key {
        Some(members[0])
    } else {
        member_named(members.drop_first(), key)
    }
}

/// The index of the first member with the given key.
pub fn find_member(members: &Vec<JsonMember>, key: &str) -> (r: Option<usize>)
    ensures
        match r {
            Some(i) => i < members.len() && member_named(member_views(members@), key@) == Some(
                members@[i as int]@,
            ),
            None => member_named(member_views(members@), key@) is None,
        },
{
    let wanted = crate::text::chars_of(key);
    let mut i: usize = 0;
    assert(member_views(members@).skip(0) =~= member_views(members@));
    while i < members.len()
        invariant
            i <= members.len(),
            wanted@ == key@,
            member_named(member_views(members@), key@) == member_named(
                member_views(members@).skip(i as int),
                key@,
            ),
        decreases members.len() - i,
    {
        let k = crate::text::chars_of(members[i].key.as_str());
        let ghost rest = member_views(members@).skip(i as int);
        assert(rest[0] == members@[i as int]@);
        if crate::text::same(&k, &wanted) {
            return Some(i);
        }
        assert(rest.drop_first() =~= member_views(members@).skip(i + 1));
        i += 1;
    }
    None
}

} // verus!
