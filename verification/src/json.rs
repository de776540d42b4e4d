//! The JSON text of a document, written and read by `serde_json`.
//!
//! A document is a JSON object whose keys are names and whose values are
//! tags. What `serde_json` makes of one is not proved here: the two
//! functions at the end of this file are believed to do what their contracts
//! say.

use crate::pairs::{as_map, distinct_names};
use std::collections::BTreeMap;
use vstd::prelude::*;

verus! {

/// `serde_json::Error`, carried from a failed call to the code that names
/// the failure; nothing is read from it.
#[verifier::external_type_specification]
#[verifier::external_body]
pub struct ExJsonError(serde_json::Error);

/// A document's content: each name with its tag.
pub type Tags = Map<Seq<char>, Seq<char>>;

/// The text that `serde_json::to_string` writes for a map from names to
/// tags, or `None` where it reports an error.
pub uninterp spec fn object_text(tags: Tags) -> Option<Seq<char>>;

/// The map from names to tags that `serde_json::from_str` reads from a
/// text, or `None` where it reports an error.
pub uninterp spec fn object_tags(text: Seq<char>) -> Option<Tags>;

/// Entries of name and tag as pairs of character sequences.
pub open spec fn tagged(entries: Seq<(String, String)>) -> Seq<(Seq<char>, Seq<char>)> {
    entries.map_values(|entry: (String, String)| (entry.0@, entry.1@))
}

/// Writes the entries as one JSON object, through `serde_json::to_string`
/// on a `BTreeMap<String, String>` that holds them.
///
/// Believed, not proved: the outcome depends on nothing but which names the
/// entries hold and with which tags, so it is `object_text` of their map. No
/// name may stand twice, so that the `BTreeMap` holds every entry.
#[verifier::external_body]
pub(crate) fn write_object(entries: &Vec<(String, String)>) -> (r: Result<
    String,
    serde_json::Error,
>)
    requires
        distinct_names(tagged(entries@)),
    ensures
        match r {
            Ok(text) => object_text(as_map(tagged(entries@))) == Some(text@),
            Err(_) => object_text(as_map(tagged(entries@))) is None,
        },
{
    let object: BTreeMap<String, String> = entries.iter().cloned().collect();
    serde_json::to_string(&object)
}

/// Reads a text as one JSON object from strings to strings, through
/// `serde_json::from_str` into a `BTreeMap<String, String>`, and hands its
/// entries out.
///
/// Believed, not proved: the outcome depends on nothing but the text, so the
/// entries' map is `object_tags` of it; and no name stands twice among them,
/// as they come out of a map.
#[verifier::external_body]
pub(crate) fn read_object(text: &str) -> (r: Result<Vec<(String, String)>, serde_json::Error>)
    ensures
        match r {
            Ok(entries) => distinct_names(tagged(entries@)) && object_tags(text@) == Some(
                as_map(tagged(entries@)),
            ),
            Err(_) => object_tags(text@) is None,
        },
{
    let object: BTreeMap<String, String> = serde_json::from_str(text)?;
    Ok(object.into_iter().collect())
}

} // verus!
