//! The custody-agnostic author index: which author ids are registered, independent of where their
//! keys live. Under OS keyring custody there are no `keys/author-N.key` files to list, so the
//! index (`registry/authors.json`, a JSON array of ids) is the source of truth for "who is
//! registered"; the key registry holds their public keys and the vault their secrets.
//!
//! The application reads and writes the index file; this module decides what it holds.

use vstd::prelude::*;

use crate::error::StudioError;
use crate::order::{sorted_unique, strictly_increasing};
use crate::text::decimal;

verus! {

/// The id list that JSON text holds, if it is a JSON array of unsigned 64-bit integers.
pub uninterp spec fn json_id_list(text: Seq<char>) -> Option<Seq<u64>>;

/// The ids in decimal, separated by commas.
pub open spec fn decimals_joined(ids: Seq<u64>) -> Seq<char>
    decreases ids.len(),
{
    if ids.len() == 0 {
        seq![]
    } else if ids.len() == 1 {
        decimal(ids[0] as nat)
    } else {
        decimals_joined(ids.drop_last()) + ","@ + decimal(ids.last() as nat)
    }
}

/// The JSON text serde_json writes for a list of ids: a compact array of decimal integers.
pub open spec fn json_of_ids(ids: Seq<u64>) -> Seq<char> {
    "["@ + decimals_joined(ids) + "]"@
}

/// `serde_json::from_str::<Vec<u64>>`: the list the text holds, or the parse error.
#[verifier::external_body]
fn parse_id_list(text: &str) -> (r: Result<Vec<u64>, serde_json::Error>)
    ensures
        r matches Ok(v) ==> json_id_list(text@) == Some(v@),
        r is Err ==> json_id_list(text@) is None,
{
    serde_json::from_str(text)
}

/// `serde_json::to_string` on a list of ids: a compact JSON array of the ids in decimal (the
/// compact formatter writes no spaces; integers are written by `itoa`), which cannot
/// fail (no map keys, no failing `Serialize`), and which `serde_json::from_str` reads back as the
/// same list.
#[verifier::external_body]
fn render_id_list(ids: &Vec<u64>) -> (r: Result<String, serde_json::Error>)
    ensures
        r is Ok,
        r matches Ok(s) ==> s@ == json_of_ids(ids@),
        r matches Ok(s) ==> json_id_list(s@) == Some(ids@),
{
    serde_json::to_string(ids)
}

/// Registered author ids, sorted ascending and de-duplicated, from the stored index text
/// (`None` when there is no index yet, which means no authors).
pub fn list(stored: Option<&str>) -> (r: Result<Vec<u64>, StudioError>)
    ensures
        stored is None ==> (r matches Ok(v) && v@.len() == 0),
        stored matches Some(t) ==> match json_id_list(t@) {
            Some(ids) => r matches Ok(v) && strictly_increasing(v@) && v@.to_set() == ids.to_set(),
            None => r matches Err(StudioError::Json(_)),
        },
{
    match stored {
        None => Ok(Vec::new()),
        Some(text) => match parse_id_list(text) {
            Ok(ids) => Ok(sorted_unique(&ids)),
            Err(e) => Err(StudioError::Json(e)),
        },
    }
}

/// The index after recording `id` (idempotent): `id` is appended when absent.
pub fn add(listed: &Vec<u64>, id: u64) -> (r: Vec<u64>)
    ensures
        listed@.contains(id) ==> r@ == listed@,
        !listed@.contains(id) ==> r@ == listed@.push(id),
{
    let mut r = listed.clone();
    let mut i: usize = 0;
    while i < r.len()
        invariant
            r@ == listed@,
            i <= r.len(),
            forall|k: int| 0 <= k < i ==> r@[k] != id,
        decreases r.len() - i,
    {
        if r[i] == id {
            return r;
        }
        i = i + 1;
    }
    r.push(id);
    r
}

/// The JSON text to store for an index; `list` reads it back as the same ids.
pub fn to_json(ids: &Vec<u64>) -> (r: Result<String, StudioError>)
    ensures
        r matches Ok(s) && s@ == json_of_ids(ids@) && json_id_list(s@) == Some(ids@),
{
    match render_id_list(ids) {
        Ok(s) => Ok(s),
        Err(e) => Err(StudioError::Json(e)),
    }
}

/// Recording an author twice stores the same index as recording it once, and the recorded id
/// is then among the listed ones.
pub proof fn lemma_add_idempotent(listed: Seq<u64>, id: u64)
    ensures
        ({
            let once = if listed.contains(id) { listed } else { listed.push(id) };
            &&& once.contains(id)
            &&& (if once.contains(id) { once } else { once.push(id) }) == once
            &&& once.to_set() == listed.to_set().insert(id)
        }),
{
    let once = if listed.contains(id) { listed } else { listed.push(id) };
    if listed.contains(id) {
        assert(listed.to_set().insert(id) =~= listed.to_set());
    } else {
        assert(once[listed.len() as int] == id);
        assert(listed + seq![id] =~= listed.push(id));
        Seq::lemma_to_set_insert_commutes(listed, id);
    }
}

} // verus!
