//! What holds of the reading of JSON documents.

use vstd::prelude::*;

use crate::json::{elements_at, member_of, text_at, Json};

verus! {

/// What stands in a document under `key`.
pub open spec fn entry(document: Json, key: Seq<char>) -> Option<Json> {
    if document is Object && document->Object_0.dom().contains(key) {
        Some(document->Object_0[key])
    } else {
        None
    }
}

/// The string that stands in a document under `key`.
pub open spec fn string_entry(document: Json, key: Seq<char>) -> Option<Seq<char>> {
    match entry(document, key) {
        Some(Json::Text(text)) => Some(text),
        _ => None,
    }
}

/// The array that stands in a document under `key`.
pub open spec fn array_entry(document: Json, key: Seq<char>) -> Option<Seq<Json>> {
    match entry(document, key) {
        Some(Json::Array(elements)) => Some(elements),
        _ => None,
    }
}

/// Only objects have members, and a member is what stands under its key. A
/// string is read as its characters and an array as its elements, and nothing
/// else is read as either.
pub proof fn law_members_are_read(document: Json, key: Seq<char>)
    ensures
        document.member(key) == entry(document, key),
        text_at(document, key) == string_entry(document, key),
        elements_at(document, key) == array_entry(document, key),
        member_of(Some(document), key) == entry(document, key),
        member_of(None, key) is None,
        document.text() == match document {
            Json::Text(text) => Some(text),
            _ => None,
        },
        document.elements() == match document {
            Json::Array(elements) => Some(elements),
            _ => None,
        },
{
}

/// A number is read as an integer if and only if it is one between the bounds,
/// and it is read unchanged.
pub proof fn law_integers_are_read(document: Json, low: int, high: int, n: int)
    ensures
        document.integer_within(low, high) == Some(n) <==> document == Json::Integer(n) && low <= n
            && n <= high,
{
}

} // verus!
