//! Reading values out of a JSON document by pointer.
//!
//! A pointer is a run of `/`-led steps, each an object key or an array
//! index (`/events/0/time`). A document that does not parse holds nothing.

use crate::film::{opt_strings_view, opt_view};
use serde_json::Value;
use vstd::prelude::*;

verus! {

/// The text is a JSON document.
pub uninterp spec fn json_parses(doc: Seq<char>) -> bool;

/// The string that the document holds at the pointer.
pub uninterp spec fn json_string(doc: Seq<char>, pointer: Seq<char>) -> Option<Seq<char>>;

/// The unsigned integer that the document holds at the pointer.
pub uninterp spec fn json_u64(doc: Seq<char>, pointer: Seq<char>) -> Option<u64>;

/// The signed integer that the document holds at the pointer.
pub uninterp spec fn json_i64(doc: Seq<char>, pointer: Seq<char>) -> Option<i64>;

/// The items of the array that the document holds at the pointer, each
/// written out as a document of its own.
pub uninterp spec fn json_items(doc: Seq<char>, pointer: Seq<char>) -> Option<Seq<Seq<char>>>;

/// `serde_json::from_str`: whether the text parses as a JSON document.
/// The contract only names the verdict.
#[verifier::external_body]
pub(crate) fn parses(doc: &str) -> (r: bool)
    ensures
        r == json_parses(doc@),
{
    serde_json::from_str::<Value>(doc).is_ok()
}

/// `serde_json::from_str`, `Value::pointer` and `Value::as_str`: the string
/// at the pointer, if the document parses and holds one there.
#[verifier::external_body]
pub(crate) fn string_at(doc: &str, pointer: &str) -> (r: Option<String>)
    ensures
        opt_view(r) == json_string(doc@, pointer@),
{
    serde_json::from_str::<Value>(doc).ok()?.pointer(pointer)?.as_str().map(String::from)
}

/// `serde_json::from_str`, `Value::pointer` and `Value::as_u64`: the
/// unsigned integer at the pointer, if the document parses and holds one there.
#[verifier::external_body]
pub(crate) fn u64_at(doc: &str, pointer: &str) -> (r: Option<u64>)
    ensures
        r == json_u64(doc@, pointer@),
{
    serde_json::from_str::<Value>(doc).ok()?.pointer(pointer)?.as_u64()
}

/// `serde_json::from_str`, `Value::pointer` and `Value::as_i64`: the signed
/// integer at the pointer, if the document parses and holds one there.
#[verifier::external_body]
pub(crate) fn i64_at(doc: &str, pointer: &str) -> (r: Option<i64>)
    ensures
        r == json_i64(doc@, pointer@),
{
    serde_json::from_str::<Value>(doc).ok()?.pointer(pointer)?.as_i64()
}

/// `serde_json::from_str`, `Value::pointer`, `Value::as_array` and
/// `Value::to_string`: the items of the array at the pointer, each
/// serialised, if the document parses and holds an array there.
#[verifier::external_body]
pub(crate) fn items_at(doc: &str, pointer: &str) -> (r: Option<Vec<String>>)
    ensures
        opt_strings_view(r) == json_items(doc@, pointer@),
{
    serde_json::from_str::<Value>(doc).ok()?.pointer(pointer)?.as_array()
        .map(|a| a.iter().map(|v| v.to_string()).collect())
}

/// The string at the pointer; the empty string where there is none.
pub open spec fn json_string_or_empty(doc: Seq<char>, pointer: Seq<char>) -> Seq<char> {
    match json_string(doc, pointer) {
        Some(s) => s,
        None => Seq::empty(),
    }
}

/// The items at the pointer; none where there is no array.
pub open spec fn json_items_or_none(doc: Seq<char>, pointer: Seq<char>) -> Seq<Seq<char>> {
    match json_items(doc, pointer) {
        Some(items) => items,
        None => Seq::empty(),
    }
}

/// The string at the pointer, as text.
pub fn text_at(doc: &str, pointer: &str) -> (r: Option<Vec<char>>)
    ensures
        crate::film::opt_chars(r) == json_string(doc@, pointer@),
{
    match string_at(doc, pointer) {
        Some(s) => Some(crate::text::chars_of(s.as_str())),
        None => None,
    }
}

/// The string at the pointer, as text; empty where there is none.
pub fn text_or_empty(doc: &str, pointer: &str) -> (r: Vec<char>)
    ensures
        r@ == json_string_or_empty(doc@, pointer@),
{
    match string_at(doc, pointer) {
        Some(s) => crate::text::chars_of(s.as_str()),
        None => Vec::new(),
    }
}

/// The items at the pointer; none where there is no array.
pub fn items_or_none(doc: &str, pointer: &str) -> (r: Vec<String>)
    ensures
        crate::film::strings_view(r@) == json_items_or_none(doc@, pointer@),
{
    match items_at(doc, pointer) {
        Some(items) => items,
        None => {
            let none: Vec<String> = Vec::new();
            assert(crate::film::strings_view(none@) =~= Seq::<Seq<char>>::empty());
            none
        },
    }
}

/// The string at the pointer, where there is one and it is not empty.
pub open spec fn json_filled(doc: Seq<char>, pointer: Seq<char>) -> Option<Seq<char>> {
    match json_string(doc, pointer) {
        Some(s) => if s.len() > 0 {
            Some(s)
        } else {
            None
        },
        None => None,
    }
}

/// The string at the pointer, where there is one and it is not empty.
pub fn filled_at(doc: &str, pointer: &str) -> (r: Option<String>)
    ensures
        opt_view(r) == json_filled(doc@, pointer@),
{
    match string_at(doc, pointer) {
        Some(s) => if s.as_str().unicode_len() > 0 {
            Some(s)
        } else {
            None
        },
        None => None,
    }
}

} // verus!
