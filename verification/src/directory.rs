//! Indexing the central directory of an archive.

use crate::central::{cd_entry_at, read_cd_entry};
use crate::eocd::{
    eocd_record, find_eocd, is_eocd_at, last_eocd, lemma_last_eocd_is_greatest, scan_start,
    uses_zip64_sentinel, zip64_locator_at, EOCD_MIN_SIZE, MAX_EOCD_SCAN,
};
use crate::error::ZipError;
use crate::lookup::entry_views;
use crate::table::{table_entries, table_new, table_push};
use crate::zip::{CdEntry, CdEntryView, ZipLimits, MAX_CD_ENTRIES};
use vstd::prelude::*;

verus! {

/// The tail window that is searched for the end-of-central-directory
/// record: the configured cap, never less than a record and never more than
/// a record with the longest comment.
pub open spec fn tail_scan_limit(limits: Option<ZipLimits>) -> int {
    match limits {
        Some(l) => if l.max_eocd_scan < EOCD_MIN_SIZE {
            EOCD_MIN_SIZE as int
        } else if l.max_eocd_scan < MAX_EOCD_SCAN {
            l.max_eocd_scan as int
        } else {
            MAX_EOCD_SCAN as int
        },
        None => MAX_EOCD_SCAN as int,
    }
}

/// Structural anomalies are rejected rather than tolerated.
pub open spec fn is_strict(limits: Option<ZipLimits>) -> bool {
    limits matches Some(l) && l.strict
}

/// A parsed sequence of entries with one more entry in front.
pub open spec fn prepend(entry: CdEntryView, rest: Result<Seq<CdEntryView>, ZipError>) -> Result<
    Seq<CdEntryView>,
    ZipError,
> {
    match rest {
        Ok(s) => Ok(seq![entry] + s),
        Err(e) => Err(e),
    }
}

/// The entries of a central directory: at most `count` records from `pos`
/// on, all of which start before `cd_end`.
///
/// Where the directory ends early, before `count` records or before
/// `cd_end`, lenient parsing keeps what was read and strict parsing fails.
pub open spec fn directory_entries(
    data: Seq<u8>,
    pos: int,
    cd_end: int,
    count: nat,
    strict: bool,
) -> Result<Seq<CdEntryView>, ZipError>
    decreases count,
{
    if count == 0 {
        Ok(Seq::<CdEntryView>::empty())
    } else if pos >= cd_end {
        if strict {
            Err(ZipError::InvalidFormat)
        } else {
            Ok(Seq::<CdEntryView>::empty())
        }
    } else {
        match cd_entry_at(data, pos) {
            Err(e) => Err(e),
            Ok(None) => if strict {
                Err(ZipError::InvalidFormat)
            } else {
                Ok(Seq::<CdEntryView>::empty())
            },
            Ok(Some((entry, next))) => prepend(
                entry,
                directory_entries(data, next, cd_end, (count - 1) as nat, strict),
            ),
        }
    }
}

/// The number of records that are read: the declared number, and never
/// more than the table holds.
pub open spec fn entries_to_scan(declared: u64) -> nat {
    if declared < MAX_CD_ENTRIES {
        declared as nat
    } else {
        MAX_CD_ENTRIES as nat
    }
}

/// The index of an archive.
pub struct Directory {
    /// The entries that were read, in directory order.
    pub entries: Seq<CdEntryView>,
    /// The number of entries that the archive declares.
    pub declared: u64,
    /// Offset of the first central-directory record.
    pub cd_offset: u64,
}

/// The index of an archive under the given limits.
///
/// Strict parsing refuses an archive that declares more entries than the
/// table holds; lenient parsing reads the first [`MAX_CD_ENTRIES`].
pub open spec fn read_directory(data: Seq<u8>, limits: Option<ZipLimits>) -> Result<
    Directory,
    ZipError,
> {
    match eocd_record(data, tail_scan_limit(limits)) {
        Err(e) => Err(e),
        Ok(eocd) => if is_strict(limits) && eocd.num_entries > MAX_CD_ENTRIES {
            Err(ZipError::CentralDirFull)
        } else {
            match directory_entries(
                data,
                eocd.cd_offset as int,
                eocd.cd_offset + eocd.cd_size,
                entries_to_scan(eocd.num_entries),
                is_strict(limits),
            ) {
                Err(e) => Err(e),
                Ok(entries) => Ok(
                    Directory { entries, declared: eocd.num_entries, cd_offset: eocd.cd_offset },
                ),
            }
        },
    }
}

/// A directory never holds more entries than were asked for.
pub proof fn lemma_directory_entries_bounded(
    data: Seq<u8>,
    pos: int,
    cd_end: int,
    count: nat,
    strict: bool,
)
    ensures
        directory_entries(data, pos, cd_end, count, strict) matches Ok(s) ==> s.len() <= count,
    decreases count,
{
    if count > 0 && pos < cd_end {
        match cd_entry_at(data, pos) {
            Ok(Some((entry, next))) => {
                lemma_directory_entries_bounded(data, next, cd_end, (count - 1) as nat, strict);
            },
            _ => {},
        }
    }
}

/// An index never holds more entries than the archive declares, nor more
/// than [`MAX_CD_ENTRIES`].
pub proof fn lemma_directory_bounded(data: Seq<u8>, limits: Option<ZipLimits>)
    ensures
        read_directory(data, limits) matches Ok(dir) ==> dir.entries.len() <= MAX_CD_ENTRIES
            && dir.entries.len() <= dir.declared,
{
    match eocd_record(data, tail_scan_limit(limits)) {
        Ok(eocd) => {
            lemma_directory_entries_bounded(
                data,
                eocd.cd_offset as int,
                eocd.cd_offset + eocd.cd_size,
                entries_to_scan(eocd.num_entries),
                is_strict(limits),
            );
        },
        Err(_) => {},
    }
}

/// Strict parsing rejects every archive that declares more than
/// [`MAX_CD_ENTRIES`] entries, with `CentralDirFull`.
pub proof fn lemma_strict_rejects_oversized_directory(data: Seq<u8>, limits: ZipLimits)
    requires
        limits.strict,
        eocd_record(data, tail_scan_limit(Some(limits))) matches Ok(eocd) && eocd.num_entries
            > MAX_CD_ENTRIES,
    ensures
        read_directory(data, Some(limits)) == Err::<Directory, ZipError>(ZipError::CentralDirFull),
{
}

/// An archive whose end-of-central-directory record defers to ZIP64, with no
/// ZIP64 locator before the record, is rejected as malformed.
pub proof fn lemma_zip64_sentinel_needs_locator(
    data: Seq<u8>,
    limits: Option<ZipLimits>,
    pos: int,
)
    requires
        data.len() >= 22,
        last_eocd(
            data,
            scan_start(data.len() as int, tail_scan_limit(limits)),
            data.len() - 22,
        ) == Some(pos),
        uses_zip64_sentinel(data, pos),
        zip64_locator_at(data, pos) is None,
    ensures
        read_directory(data, limits) == Err::<Directory, ZipError>(ZipError::InvalidFormat),
{
    reveal(eocd_record);
}

/// An archive without an end-of-central-directory record inside the tail
/// window is rejected as malformed: a record that a long comment pushes out
/// of the window is not found.
pub proof fn lemma_record_outside_window(data: Seq<u8>, limits: Option<ZipLimits>)
    requires
        forall|q: int|
            scan_start(data.len() as int, tail_scan_limit(limits)) <= q ==> !is_eocd_at(data, q),
    ensures
        read_directory(data, limits) == Err::<Directory, ZipError>(ZipError::InvalidFormat),
{
    reveal(eocd_record);
    if data.len() >= 22 {
        lemma_last_eocd_is_greatest(
            data,
            scan_start(data.len() as int, tail_scan_limit(limits)),
            data.len() - 22,
        );
    }
}

/// What was read so far, followed by what is still to be read.
spec fn with_prefix(prefix: Seq<CdEntryView>, rest: Result<Seq<CdEntryView>, ZipError>) -> Result<
    Seq<CdEntryView>,
    ZipError,
> {
    match rest {
        Ok(s) => Ok(prefix + s),
        Err(e) => Err(e),
    }
}

proof fn lemma_with_prefix_push(
    prefix: Seq<CdEntryView>,
    entry: CdEntryView,
    rest: Result<Seq<CdEntryView>, ZipError>,
)
    ensures
        with_prefix(prefix, prepend(entry, rest)) == with_prefix(prefix.push(entry), rest),
{
    match rest {
        Ok(s) => {
            assert(prefix + (seq![entry] + s) =~= prefix.push(entry) + s);
        },
        Err(_) => {},
    }
}

/// Reads at most `to_scan` central-directory records from `cd_offset` on
/// into a table.
fn scan_directory(data: &[u8], cd_offset: u64, cd_end: u64, to_scan: usize, strict: bool) -> (r:
    Result<heapless::Vec<CdEntry, MAX_CD_ENTRIES>, ZipError>)
    requires
        to_scan <= MAX_CD_ENTRIES,
    ensures
        match directory_entries(data@, cd_offset as int, cd_end as int, to_scan as nat, strict) {
            Ok(s) => r matches Ok(table) && entry_views(table_entries(table)) == s,
            Err(e) => r matches Err(x) && x == e,
        },
{
    let mut entries = table_new();
    let mut pos: u64 = cd_offset;
    let mut scanned: usize = 0;
    assert(entry_views(table_entries(entries)) =~= Seq::<CdEntryView>::empty());
    proof {
        lemma_with_empty_prefix(
            directory_entries(data@, cd_offset as int, cd_end as int, to_scan as nat, strict),
        );
    }
    while scanned < to_scan
        invariant_except_break
            scanned <= to_scan <= MAX_CD_ENTRIES,
            table_entries(entries).len() == scanned,
            directory_entries(data@, cd_offset as int, cd_end as int, to_scan as nat, strict)
                == with_prefix(
                entry_views(table_entries(entries)),
                directory_entries(
                    data@,
                    pos as int,
                    cd_end as int,
                    (to_scan - scanned) as nat,
                    strict,
                ),
            ),
        ensures
            directory_entries(data@, cd_offset as int, cd_end as int, to_scan as nat, strict)
                == Ok::<Seq<CdEntryView>, ZipError>(entry_views(table_entries(entries))),
        decreases to_scan - scanned,
    {
        let ghost prefix = entry_views(table_entries(entries));
        proof {
            lemma_with_prefix_end(prefix);
        }
        if pos >= cd_end {
            if strict {
                return Err(ZipError::InvalidFormat);
            }
            break ;
        }
        match read_cd_entry(data, pos) {
            Err(e) => {
                return Err(e);
            },
            Ok(Some((entry, next))) => {
                let ghost old_table = table_entries(entries);
                proof {
                    lemma_with_prefix_push(
                        prefix,
                        entry@,
                        directory_entries(
                            data@,
                            next as int,
                            cd_end as int,
                            (to_scan - scanned - 1) as nat,
                            strict,
                        ),
                    );
                    assert(entry_views(old_table.push(entry)) =~= prefix.push(entry@));
                }
                if !table_push(&mut entries, entry) {
                    return Err(ZipError::CentralDirFull);
                }
                pos = next;
            },
            Ok(None) => {
                if strict {
                    return Err(ZipError::InvalidFormat);
                }
                break ;
            },
        }
        scanned += 1;
    }
    Ok(entries)
}

proof fn lemma_with_empty_prefix(rest: Result<Seq<CdEntryView>, ZipError>)
    ensures
        with_prefix(Seq::<CdEntryView>::empty(), rest) == rest,
{
    match rest {
        Ok(s) => {
            assert(Seq::<CdEntryView>::empty() + s =~= s);
        },
        Err(_) => {},
    }
}

proof fn lemma_with_prefix_end(prefix: Seq<CdEntryView>)
    ensures
        with_prefix(prefix, Ok(Seq::<CdEntryView>::empty())) == Ok::<Seq<CdEntryView>, ZipError>(
            prefix,
        ),
{
    assert(prefix + Seq::<CdEntryView>::empty() =~= prefix);
}

/// The declared number of entries, as far as it fits in `usize`.
pub open spec fn declared_entries(dir: Directory) -> int {
    if dir.declared > usize::MAX {
        usize::MAX as int
    } else {
        dir.declared as int
    }
}

/// Indexes the central directory of an archive: the table of entries, the
/// declared number of entries and the offset of the directory.
pub(crate) fn index_archive(data: &[u8], limits: Option<ZipLimits>) -> (r: Result<
    (heapless::Vec<CdEntry, MAX_CD_ENTRIES>, usize, u64),
    ZipError,
>)
    ensures
        match read_directory(data@, limits) {
            Ok(dir) => r matches Ok((table, declared, cd_offset)) && entry_views(
                table_entries(table),
            ) == dir.entries && declared == declared_entries(dir) && cd_offset == dir.cd_offset,
            Err(e) => r matches Err(x) && x == e,
        },
{
    let max_eocd_scan: usize = match limits {
        Some(l) => if l.max_eocd_scan < EOCD_MIN_SIZE {
            EOCD_MIN_SIZE
        } else if l.max_eocd_scan < MAX_EOCD_SCAN {
            l.max_eocd_scan
        } else {
            MAX_EOCD_SCAN
        },
        None => MAX_EOCD_SCAN,
    };
    let eocd = match find_eocd(data, max_eocd_scan) {
        Ok(info) => info,
        Err(e) => {
            return Err(e);
        },
    };
    let strict: bool = match limits {
        Some(l) => l.strict,
        None => false,
    };
    if strict && eocd.num_entries > MAX_CD_ENTRIES as u64 {
        return Err(ZipError::CentralDirFull);
    }
    let cd_end: u64 = eocd.cd_offset + eocd.cd_size;
    let to_scan: usize = if eocd.num_entries < MAX_CD_ENTRIES as u64 {
        eocd.num_entries as usize
    } else {
        MAX_CD_ENTRIES
    };
    let entries = match scan_directory(data, eocd.cd_offset, cd_end, to_scan, strict) {
        Ok(table) => table,
        Err(e) => {
            return Err(e);
        },
    };
    let num_entries: usize = if eocd.num_entries > usize::MAX as u64 {
        usize::MAX
    } else {
        eocd.num_entries as usize
    };
    Ok((entries, num_entries, eocd.cd_offset))
}

} // verus!
