//! The calls into std and outside crates that the library relies on, each
//! with the contract it is trusted to meet.
use vstd::prelude::*;
use std::collections::HashMap;
use crate::reorder_spec::{Id, ids_of};

verus! {

/// Some key of `names` spells `id`.
pub open spec fn has_key_for(names: Map<String, String>, id: Id) -> bool {
    exists|k: String| names.contains_key(k) && k@ == id
}

/// The key of `names` that spells `id`.
pub open spec fn key_for(names: Map<String, String>, id: Id) -> String {
    choose|k: String| names.contains_key(k) && k@ == id
}

/// Relies on std's `HashMap::get` with `String` keys: the value stored under
/// the key equal to `id`, if there is one.
#[verifier::external_body]
pub(crate) fn stored_value<'a>(names: &'a HashMap<String, String>, id: &String) -> (r: Option<&'a String>)
    ensures
        r is Some <==> has_key_for(names@, id@),
        r matches Some(v) ==> *v == names@[key_for(names@, id@)],
{
    names.get(id)
}

/// Relies on `uuid::Uuid::new_v4` and on the hyphenated lower-case form that
/// `Uuid`'s `Display` writes: a random id of 36 characters, with hyphens at
/// positions 8, 13, 18 and 23.
#[verifier::external_body]
pub(crate) fn fresh_id() -> (r: String)
    ensures
        r@.len() == 36,
        r@[8] == '-' && r@[13] == '-' && r@[18] == '-' && r@[23] == '-',
{
    uuid::Uuid::new_v4().to_string()
}

/// Relies on `chrono::Utc::now`, written by `DateTime::to_rfc3339`: the
/// current time. Nothing is promised of its value.
#[verifier::external_body]
pub(crate) fn now_rfc3339() -> (r: String) {
    chrono::Utc::now().to_rfc3339()
}

/// What `serde_json::to_string` writes for a list of strings: a JSON array.
pub uninterp spec fn json_array_of(ids: Seq<Seq<char>>) -> Seq<char>;

/// Relies on `serde_json::to_string` on a `Vec<String>`: the JSON array text
/// of the list, which depends on the strings alone. Writing strings into a
/// `Vec<u8>` cannot fail, so the result is always `Ok`.
#[verifier::external_body]
pub(crate) fn ids_json(ids: &Vec<String>) -> (r: String)
    ensures
        r@ == json_array_of(ids_of(ids@)),
{
    serde_json::to_string(ids).unwrap()
}

} // verus!
