//! Statistics as JSON text.

use std::collections::BTreeMap;
use vstd::prelude::*;

verus! {

/// The JSON text of an object whose members are the names of `fields`,
/// each with its number, in ascending order of the names and without
/// white space. The text is written by the `serde_json` crate and is
/// not defined here.
pub uninterp spec fn json_object(fields: Map<Seq<char>, u64>) -> Seq<char>;

/// `pairs` tabulates `fields`: no name comes twice, every pair is a
/// field with its number, and every field comes.
pub open spec fn is_table_of(pairs: Seq<(Seq<char>, u64)>, fields: Map<Seq<char>, u64>) -> bool {
    &&& forall|i: int, j: int|
        0 <= i < j < pairs.len() ==> (#[trigger] pairs[i]).0 != (#[trigger] pairs[j]).0
    &&& forall|i: int|
        0 <= i < pairs.len() ==> fields.contains_key((#[trigger] pairs[i]).0) && fields[pairs[i].0]
            == pairs[i].1
    &&& forall|name: Seq<char>| #[trigger]
        fields.contains_key(name) ==> exists|i: int|
            0 <= i < pairs.len() && (#[trigger] pairs[i]).0 == name
}

/// Trusted: `serde_json::to_string`, applied to the pairs gathered in a
/// `BTreeMap`. Claims that the result depends on nothing but the fields
/// that `pairs` tabulates, and is the text named by [`json_object`].
#[verifier::external_body]
pub(crate) fn to_json(pairs: &Vec<(String, u64)>) -> (text: String)
    ensures
        forall|fields: Map<Seq<char>, u64>|
            is_table_of(pairs.deep_view(), fields) ==> text@ == #[trigger] json_object(fields),
{
    let fields: BTreeMap<&str, u64> = pairs.iter().map(|pair| (pair.0.as_str(), pair.1)).collect();
    serde_json::to_string(&fields).unwrap_or_default()
}

} // verus!
