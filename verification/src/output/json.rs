//! JSON rendering through `serde_json`.

use vstd::prelude::*;
use crate::ordering::chars_lt;

verus! {

/// The pretty-printed JSON object that `serde_json` writes for a map from
/// each tag to its number, with keys in the given order.
pub uninterp spec fn pretty_json_object(entries: Seq<(Seq<char>, u16)>) -> Seq<char>;

/// Tag/number pairs with each tag taken as characters.
pub open spec fn json_entries(entries: Seq<(String, u16)>) -> Seq<(Seq<char>, u16)> {
    entries.map_values(|e: (String, u16)| (e.0@, e.1))
}

/// `serde_json::to_string_pretty` on the map from each tag to its number.
/// The entries come in strictly increasing key order, so they are distinct
/// and the map holds them one for one, in the order given. Serialization of a map with string keys and integer values does
/// not fail; the text it yields is named, not stated. A failure would be
/// reported by its message.
#[verifier::external_body]
pub(crate) fn to_json_pretty(entries: &Vec<(String, u16)>) -> (r: Result<String, String>)
    requires
        forall|i: int, j: int| 0 <= i < j < entries@.len() ==>
            chars_lt((#[trigger] entries@[i]).0@, (#[trigger] entries@[j]).0@),
    ensures
        r is Ok,
        r matches Ok(s) ==> s@ == pretty_json_object(json_entries(entries@)),
{
    let map: std::collections::BTreeMap<String, u16> = entries.iter().cloned().collect();
    match serde_json::to_string_pretty(&map) {
        Ok(text) => Ok(text),
        Err(e) => Err(format!("{e}")),
    }
}

} // verus!
