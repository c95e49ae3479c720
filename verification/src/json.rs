//! Values of a manifest that the harness carries from one manifest to the
//! other without looking into them.

use vstd::prelude::*;

verus! {

/// `serde_json::Value`, of which the library sees nothing.
#[verifier::external_type_specification]
#[verifier::external_body]
pub struct ExJsonValue(serde_json::Value);

/// The value that `serde_json::Value::from` makes of a text: the JSON string
/// with that text.
pub uninterp spec fn json_string(text: Seq<char>) -> serde_json::Value;

/// `<serde_json::Value as From<&str>>::from`: the JSON string that holds
/// `text`. The contract gives the result its name and claims no more of it.
#[verifier::external_body]
pub(crate) fn string_value(text: &str) -> (v: serde_json::Value)
    ensures
        v == json_string(text@),
{
    serde_json::Value::from(text)
}

} // verus!
