//! The database as one JSON document: the text under which the whole store
//! is kept in the key-value service.

use crate::txn::Database;
use std::collections::BTreeMap;
use vstd::prelude::*;

verus! {

/// `serde_json::Error`: why a text could not be read or written. It is
/// carried from the call to where it is dropped; nothing is said about it.
#[verifier::external_type_specification]
#[verifier::external_body]
pub struct ExJsonError(serde_json::Error);

/// The JSON text that stands for a database, where it has one.
pub uninterp spec fn document_text(db: Map<u64, Seq<u64>>) -> Option<Seq<char>>;

/// The database that a JSON text stands for, where it stands for one.
pub uninterp spec fn document_of(text: Seq<char>) -> Option<Map<u64, Seq<u64>>>;

/// Calls `serde_json::to_string` on the map of the database. The text
/// depends on the keys and lists of the database alone; the contract gives
/// it the name `document_text` and says nothing else about it.
#[verifier::external_body]
pub(crate) fn to_json(db: &Database) -> (res: Result<String, serde_json::Error>)
    ensures
        match res {
            Ok(text) => document_text(db@) == Some(text@),
            Err(_) => document_text(db@) is None,
        },
{
    serde_json::to_string(&db.0)
}

/// Calls `serde_json::from_str` for a map from `u64` to lists of `u64`. What
/// it returns depends on the text alone; the contract gives the database
/// that was read the name `document_of` and says nothing else about it.
#[verifier::external_body]
pub(crate) fn from_json(text: &str) -> (res: Result<Database, serde_json::Error>)
    ensures
        match res {
            Ok(db) => document_of(text@) == Some(db@),
            Err(_) => document_of(text@) is None,
        },
{
    match serde_json::from_str::<BTreeMap<u64, Vec<u64>>>(text) {
        Ok(map) => Ok(Database(map)),
        Err(error) => Err(error),
    }
}

/// The database as a JSON document.
pub fn encode(db: &Database) -> (res: Option<String>)
    ensures
        res.deep_view() == document_text(db@),
{
    match to_json(db) {
        Ok(text) => Some(text),
        Err(_) => None,
    }
}

/// The database that a JSON document holds.
pub fn decode(text: &str) -> (res: Option<Database>)
    ensures
        match res {
            Some(db) => document_of(text@) == Some(db@),
            None => document_of(text@) is None,
        },
{
    match from_json(text) {
        Ok(db) => Some(db),
        Err(_) => None,
    }
}

} // verus!
