//! Reading one field of a JSON document.

use vstd::prelude::*;

verus! {

/// What a JSON pointer finds in a document.
#[derive(Clone, Debug)]
pub enum JsonField {
    /// The text is not a JSON document.
    Invalid,
    /// The document holds nothing at the pointer.
    Absent,
    Null,
    Bool(bool),
    /// A number, with its value where it is an integer that fits a `u64`.
    Number(Option<u64>),
    Text(String),
    Array,
    Object,
}

/// A JSON field as plain values.
pub enum JsonFieldView {
    Invalid,
    Absent,
    Null,
    Bool(bool),
    Number(Option<u64>),
    Text(Seq<char>),
    Array,
    Object,
}

impl View for JsonField {
    type V = JsonFieldView;

    open spec fn view(&self) -> JsonFieldView {
        match self {
            JsonField::Invalid => JsonFieldView::Invalid,
            JsonField::Absent => JsonFieldView::Absent,
            JsonField::Null => JsonFieldView::Null,
            JsonField::Bool(b) => JsonFieldView::Bool(*b),
            JsonField::Number(n) => JsonFieldView::Number(*n),
            JsonField::Text(s) => JsonFieldView::Text(s@),
            JsonField::Array => JsonFieldView::Array,
            JsonField::Object => JsonFieldView::Object,
        }
    }
}

/// What `serde_json` finds at JSON pointer `pointer` in document `text`.
pub uninterp spec fn json_lookup(text: Seq<char>, pointer: Seq<char>) -> JsonFieldView;

/// `serde_json::from_str::<Value>` on `text`, then `Value::pointer(pointer)`,
/// with the value found told apart by kind (`Number::as_u64` for numbers).
/// The result is a function of the two texts alone; nothing more is claimed.
#[verifier::external_body]
pub fn lookup(text: &str, pointer: &str) -> (r: JsonField)
    ensures
        r@ == json_lookup(text@, pointer@),
{
    match serde_json::from_str::<serde_json::Value>(text) {
        Err(_) => JsonField::Invalid,
        Ok(v) => match v.pointer(pointer) {
            None => JsonField::Absent,
            Some(serde_json::Value::Null) => JsonField::Null,
            Some(serde_json::Value::Bool(b)) => JsonField::Bool(*b),
            Some(serde_json::Value::Number(n)) => JsonField::Number(n.as_u64()),
            Some(serde_json::Value::String(s)) => JsonField::Text(s.clone()),
            Some(serde_json::Value::Array(_)) => JsonField::Array,
            Some(serde_json::Value::Object(_)) => JsonField::Object,
        },
    }
}

/// The text of a field that holds a JSON string.
pub open spec fn field_text(f: JsonFieldView) -> Option<Seq<char>> {
    match f {
        JsonFieldView::Text(s) => Some(s),
        _ => None,
    }
}

/// The value of a field that holds an integer fitting a `u64`.
pub open spec fn field_u64(f: JsonFieldView) -> Option<u64> {
    match f {
        JsonFieldView::Number(n) => n,
        _ => None,
    }
}

/// `Value::as_str` at a pointer, as an owned string.
pub fn lookup_text(text: &str, pointer: &str) -> (r: Option<String>)
    ensures
        r matches Some(s) ==> field_text(json_lookup(text@, pointer@)) == Some(s@),
        r is None ==> field_text(json_lookup(text@, pointer@)) is None,
{
    match lookup(text, pointer) {
        JsonField::Text(s) => Some(s),
        _ => None,
    }
}

/// `Value::as_u64` at a pointer.
pub fn lookup_u64(text: &str, pointer: &str) -> (r: Option<u64>)
    ensures
        r == field_u64(json_lookup(text@, pointer@)),
{
    match lookup(text, pointer) {
        JsonField::Number(n) => n,
        _ => None,
    }
}

/// The JSON string literal of a text.
pub uninterp spec fn json_string_literal(s: Seq<char>) -> Seq<char>;

/// `serde_json::to_string` of a `&str`: the text as a quoted, escaped JSON
/// string. serde_json serialises a `str` without failing; the result is a
/// function of the text alone, and nothing more is claimed of it.
#[verifier::external_body]
pub fn quote(s: &str) -> (r: String)
    ensures
        r@ == json_string_literal(s@),
{
    match serde_json::to_string(s) {
        Ok(t) => t,
        Err(_) => String::new(),
    }
}

} // verus!
