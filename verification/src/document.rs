//! Configuration documents. A document is a JSON value that the protocol
//! carries and stores without looking inside.

use vstd::prelude::*;

verus! {

/// `serde_json::Value`: a document, carried through unopened.
#[verifier::external_type_specification]
#[verifier::external_body]
pub struct ExJsonValue(serde_json::Value);

/// `Clone::clone` of `serde_json::Value`: the copy is the same document as
/// the one that was copied.
pub assume_specification[ <serde_json::Value as Clone>::clone ](
    document: &serde_json::Value,
) -> (copy: serde_json::Value)
    ensures
        copy == *document,
;

/// An owned copy of an optional document.
pub fn clone_optional_document(document: &Option<serde_json::Value>) -> (copy: Option<
    serde_json::Value,
>)
    ensures
        copy == *document,
{
    match document {
        Some(d) => Some(d.clone()),
        None => None,
    }
}

} // verus!
