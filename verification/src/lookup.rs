//! Finding an entry by name or by the offset of its local file header.
//!
//! Names are compared as UTF-8 bytes, without regard to the case of ASCII
//! letters, and a leading `/` on either side is tolerated.

use crate::zip::{CdEntry, CdEntryView};
use vstd::prelude::*;
use vstd::string::StringSliceAdditionalSpecFns;
use vstd::utf8::encode_utf8;

verus! {

/// The byte with an ASCII upper-case letter made lower-case.
pub open spec fn ascii_lower(b: u8) -> u8 {
    if 65 <= b <= 90 {
        (b + 32) as u8
    } else {
        b
    }
}

/// Two byte sequences are equal up to the case of ASCII letters.
pub open spec fn eq_ignore_ascii_case(a: Seq<u8>, b: Seq<u8>) -> bool {
    &&& a.len() == b.len()
    &&& forall|i: int| 0 <= i < a.len() ==> ascii_lower(#[trigger] a[i]) == ascii_lower(b[i])
}

/// A stored file name answers to a requested name: they are equal up to
/// ASCII case, or become so once a leading `/` is taken off one of them.
pub open spec fn name_matches(filename: Seq<u8>, name: Seq<u8>) -> bool {
    ||| eq_ignore_ascii_case(filename, name)
    ||| (name.len() > 0 && name[0] == 0x2F && eq_ignore_ascii_case(
        filename,
        name.subrange(1, name.len() as int),
    ))
    ||| (filename.len() > 0 && filename[0] == 0x2F && eq_ignore_ascii_case(
        filename.subrange(1, filename.len() as int),
        name,
    ))
}

/// An entry answers to a requested name.
pub open spec fn entry_matches(entry: CdEntryView, name: Seq<char>) -> bool {
    name_matches(encode_utf8(entry.filename), encode_utf8(name))
}

/// The first index at or after `from` whose entry answers to the name.
pub open spec fn find_from(entries: Seq<CdEntryView>, name: Seq<char>, from: int) -> Option<int>
    decreases entries.len() - from,
{
    if from < 0 || from >= entries.len() {
        None
    } else if entry_matches(entries[from], name) {
        Some(from)
    } else {
        find_from(entries, name, from + 1)
    }
}

/// The index of the first entry that answers to the name.
pub open spec fn find_entry(entries: Seq<CdEntryView>, name: Seq<char>) -> Option<int> {
    find_from(entries, name, 0)
}

/// The first index at or after `from` whose entry has the given local
/// header offset.
pub open spec fn find_offset_from(entries: Seq<CdEntryView>, offset: u64, from: int) -> Option<
    int,
>
    decreases entries.len() - from,
{
    if from < 0 || from >= entries.len() {
        None
    } else if entries[from].local_header_offset == offset {
        Some(from)
    } else {
        find_offset_from(entries, offset, from + 1)
    }
}

/// The index of the first entry with the given local header offset.
pub open spec fn find_offset(entries: Seq<CdEntryView>, offset: u64) -> Option<int> {
    find_offset_from(entries, offset, 0)
}

/// `find_from` gives the least matching index at or after `from`, and
/// `None` exactly when there is none.
pub proof fn lemma_find_from_is_first(entries: Seq<CdEntryView>, name: Seq<char>, from: int)
    requires
        0 <= from,
    ensures
        match find_from(entries, name, from) {
            Some(i) => {
                &&& from <= i < entries.len()
                &&& entry_matches(entries[i], name)
                &&& forall|j: int| from <= j < i ==> !entry_matches(#[trigger] entries[j], name)
            },
            None => forall|j: int|
                from <= j < entries.len() ==> !entry_matches(#[trigger] entries[j], name),
        },
    decreases entries.len() - from,
{
    if from < entries.len() && !entry_matches(entries[from], name) {
        lemma_find_from_is_first(entries, name, from + 1);
    }
}

/// A lookup by the name of an indexed entry finds an entry: that one, or an
/// earlier one that answers to the same name.
pub proof fn lemma_entry_found_by_its_name(entries: Seq<CdEntryView>, i: int)
    requires
        0 <= i < entries.len(),
    ensures
        find_entry(entries, entries[i].filename) matches Some(j) && j <= i && entry_matches(
            entries[j],
            entries[i].filename,
        ),
{
    lemma_find_from_is_first(entries, entries[i].filename, 0);
    lemma_name_matches_itself(encode_utf8(entries[i].filename));
}

/// Equality up to ASCII case is reflexive: a name answers to itself.
pub proof fn lemma_name_matches_itself(name: Seq<u8>)
    ensures
        name_matches(name, name),
{
}

/// A leading `/` on the requested name is tolerated.
pub proof fn lemma_leading_slash_tolerated(filename: Seq<u8>)
    ensures
        name_matches(filename, seq![0x2Fu8] + filename),
        name_matches(seq![0x2Fu8] + filename, filename),
{
    let slashed = seq![0x2Fu8] + filename;
    assert(slashed.subrange(1, slashed.len() as int) =~= filename);
}

fn lower(b: u8) -> (r: u8)
    ensures
        r == ascii_lower(b),
{
    if 65 <= b && b <= 90 {
        b + 32
    } else {
        b
    }
}

/// Compares `a[a_from..]` with `b[b_from..]` up to ASCII case.
fn tails_eq_ignore_ascii_case(a: &[u8], a_from: usize, b: &[u8], b_from: usize) -> (r: bool)
    requires
        a_from <= a.len(),
        b_from <= b.len(),
    ensures
        r == eq_ignore_ascii_case(
            a@.subrange(a_from as int, a@.len() as int),
            b@.subrange(b_from as int, b@.len() as int),
        ),
{
    let n: usize = a.len() - a_from;
    if b.len() - b_from != n {
        return false;
    }
    let ghost x = a@.subrange(a_from as int, a@.len() as int);
    let ghost y = b@.subrange(b_from as int, b@.len() as int);
    let mut i: usize = 0;
    while i < n
        invariant
            i <= n,
            a_from <= a.len(),
            b_from <= b.len(),
            n == a.len() - a_from,
            n == b.len() - b_from,
            x == a@.subrange(a_from as int, a@.len() as int),
            y == b@.subrange(b_from as int, b@.len() as int),
            forall|k: int| 0 <= k < i ==> ascii_lower(#[trigger] x[k]) == ascii_lower(y[k]),
        decreases n - i,
    {
        if lower(a[a_from + i]) != lower(b[b_from + i]) {
            assert(ascii_lower(x[i as int]) != ascii_lower(y[i as int]));
            return false;
        }
        i += 1;
    }
    true
}

/// Says whether a stored file name answers to a requested name.
pub fn matches_name(filename: &str, name: &str) -> (r: bool)
    ensures
        r == name_matches(encode_utf8(filename@), encode_utf8(name@)),
{
    let f = filename.as_bytes();
    let n = name.as_bytes();
    assert(f@.subrange(0, f@.len() as int) == f@);
    assert(n@.subrange(0, n@.len() as int) == n@);
    if tails_eq_ignore_ascii_case(f, 0, n, 0) {
        return true;
    }
    if n.len() > 0 && n[0] == 0x2F && tails_eq_ignore_ascii_case(f, 0, n, 1) {
        return true;
    }
    f.len() > 0 && f[0] == 0x2F && tails_eq_ignore_ascii_case(f, 1, n, 0)
}

/// A sequence of entries as the sequence of what they hold.
pub open spec fn entry_views(entries: Seq<CdEntry>) -> Seq<CdEntryView> {
    entries.map_values(|e: CdEntry| e@)
}

/// Finds the first entry that answers to the name.
pub fn position_by_name(entries: &[CdEntry], name: &str) -> (r: Option<usize>)
    ensures
        match find_entry(entry_views(entries@), name@) {
            Some(i) => r == Some(i as usize) && 0 <= i < entries@.len(),
            None => r is None,
        },
{
    let mut i: usize = 0;
    while i < entries.len()
        invariant
            i <= entries.len(),
            find_entry(entry_views(entries@), name@) == find_from(
                entry_views(entries@),
                name@,
                i as int,
            ),
        decreases entries.len() - i,
    {
        if matches_name(entries[i].filename.as_str(), name) {
            return Some(i);
        }
        i += 1;
    }
    None
}

/// Finds the first entry with the given local header offset.
pub fn position_by_offset(entries: &[CdEntry], offset: u64) -> (r: Option<usize>)
    ensures
        match find_offset(entry_views(entries@), offset) {
            Some(i) => r == Some(i as usize) && 0 <= i < entries@.len(),
            None => r is None,
        },
{
    let mut i: usize = 0;
    while i < entries.len()
        invariant
            i <= entries.len(),
            find_offset(entry_views(entries@), offset) == find_offset_from(
                entry_views(entries@),
                offset,
                i as int,
            ),
        decreases entries.len() - i,
    {
        if entries[i].local_header_offset == offset {
            return Some(i);
        }
        i += 1;
    }
    None
}

} // verus!
