//! The fixed-capacity table of central-directory entries, a `heapless::Vec`.

use crate::zip::{CdEntry, MAX_CD_ENTRIES};
use vstd::prelude::*;

verus! {

/// A vector of `heapless` with a fixed capacity.
#[verifier::external_type_specification]
#[verifier::external_body]
#[verifier::reject_recursive_types(T)]
pub struct ExHeaplessVec<T, const N: usize>(heapless::Vec<T, N>);

/// The entries that a table holds, in the order in which they were pushed.
pub uninterp spec fn table_entries(table: heapless::Vec<CdEntry, MAX_CD_ENTRIES>) -> Seq<CdEntry>;

/// `heapless::Vec::new`: an empty table.
#[verifier::external_body]
pub(crate) fn table_new() -> (table: heapless::Vec<CdEntry, MAX_CD_ENTRIES>)
    ensures
        table_entries(table) == Seq::<CdEntry>::empty(),
{
    heapless::Vec::new()
}

/// `heapless::Vec::push`: appends the entry where the table holds fewer than
/// its capacity, and says whether it did. A full table is left as it was.
#[verifier::external_body]
pub(crate) fn table_push(table: &mut heapless::Vec<CdEntry, MAX_CD_ENTRIES>, entry: CdEntry) -> (r:
    bool)
    ensures
        r == (table_entries(*old(table)).len() < MAX_CD_ENTRIES),
        r ==> table_entries(*final(table)) == table_entries(*old(table)).push(entry),
        !r ==> table_entries(*final(table)) == table_entries(*old(table)),
{
    table.push(entry).is_ok()
}

/// `heapless::Vec::as_slice`: the entries as a slice, never more than the
/// capacity.
#[verifier::external_body]
pub(crate) fn table_slice(table: &heapless::Vec<CdEntry, MAX_CD_ENTRIES>) -> (s: &[CdEntry])
    ensures
        s@ == table_entries(*table),
        s@.len() <= MAX_CD_ENTRIES,
{
    table.as_slice()
}

} // verus!
