//! Locating the central directory: the end-of-central-directory record and
//! its ZIP64 extension.

use crate::error::ZipError;
use crate::le::{le_u16, le_u32, le_u64, read_u16_le, read_u32_le, read_u64_le};
use vstd::prelude::*;

verus! {

/// End of central directory signature.
pub const SIG_EOCD: u32 = 0x06054b50;

/// ZIP64 end of central directory record signature.
pub const SIG_ZIP64_EOCD: u32 = 0x06064b50;

/// ZIP64 end of central directory locator signature.
pub const SIG_ZIP64_EOCD_LOCATOR: u32 = 0x07064b50;

/// Size of an end-of-central-directory record without its comment.
pub const EOCD_MIN_SIZE: usize = 22;

/// Largest tail window that can hold a record: the record and the longest comment.
pub const MAX_EOCD_SCAN: usize = 65557;

/// Where the central directory lies and how many entries it declares.
#[derive(Clone, Copy, Debug, PartialEq, Eq, Structural)]
pub struct EocdInfo {
    /// Offset of the first central-directory record.
    pub cd_offset: u64,
    /// Size of the central directory in bytes.
    pub cd_size: u64,
    /// Number of entries that the archive declares.
    pub num_entries: u64,
}

/// The fields of a ZIP64 end-of-central-directory record that the reader uses.
#[derive(Clone, Copy, Debug, PartialEq, Eq, Structural)]
pub struct Zip64EocdInfo {
    /// Number of this disk.
    pub disk_number: u32,
    /// Disk on which the central directory starts.
    pub disk_with_cd_start: u32,
    /// Total number of entries.
    pub num_entries: u64,
    /// Size of the central directory in bytes.
    pub cd_size: u64,
    /// Offset of the first central-directory record.
    pub cd_offset: u64,
}

/// The fields of a ZIP64 end-of-central-directory locator.
#[derive(Clone, Copy, Debug, PartialEq, Eq, Structural)]
pub struct Zip64Locator {
    /// Disk that holds the ZIP64 record.
    pub disk: u32,
    /// Offset of the ZIP64 record.
    pub eocd_offset: u64,
    /// Total number of disks.
    pub total_disks: u32,
}

/// An end-of-central-directory record starts at `pos`: the signature is
/// there, and the record with its comment ends exactly at the end of the data.
pub open spec fn is_eocd_at(data: Seq<u8>, pos: int) -> bool {
    &&& 0 <= pos
    &&& pos + 22 <= data.len()
    &&& le_u32(data, pos) == SIG_EOCD
    &&& pos + 22 + le_u16(data, pos + 20) == data.len()
}

/// First position of the tail window of at most `max_scan` bytes.
pub open spec fn scan_start(len: int, max_scan: int) -> int {
    if max_scan < len {
        len - max_scan
    } else {
        0
    }
}

/// The greatest position in `lo ..= hi` at which a record starts.
pub open spec fn last_eocd(data: Seq<u8>, lo: int, hi: int) -> Option<int>
    decreases hi - lo + 1,
{
    if hi < lo {
        None
    } else if is_eocd_at(data, hi) {
        Some(hi)
    } else {
        last_eocd(data, lo, hi - 1)
    }
}

/// The record's 16- or 32-bit fields hold a marker that defers to ZIP64.
pub open spec fn uses_zip64_sentinel(data: Seq<u8>, pos: int) -> bool {
    ||| le_u16(data, pos + 8) == 0xFFFF
    ||| le_u32(data, pos + 12) == 0xFFFF_FFFF
    ||| le_u32(data, pos + 16) == 0xFFFF_FFFF
}

/// The ZIP64 locator in the 20 bytes before the record at `eocd_pos`, if its
/// signature is there.
pub open spec fn zip64_locator_at(data: Seq<u8>, eocd_pos: int) -> Option<Zip64Locator> {
    if eocd_pos >= 20 && le_u32(data, eocd_pos - 20) == SIG_ZIP64_EOCD_LOCATOR {
        Some(
            Zip64Locator {
                disk: le_u32(data, eocd_pos - 16),
                eocd_offset: le_u64(data, eocd_pos - 12),
                total_disks: le_u32(data, eocd_pos - 4),
            },
        )
    } else {
        None
    }
}

/// The ZIP64 record at `offset`: an I/O error where its 56 fixed bytes are
/// not all there, a format error where the signature or the record size is
/// wrong.
pub open spec fn zip64_eocd_at(data: Seq<u8>, offset: int) -> Result<Zip64EocdInfo, ZipError> {
    if offset + 56 > data.len() {
        Err(ZipError::IoError)
    } else if le_u32(data, offset) != SIG_ZIP64_EOCD {
        Err(ZipError::InvalidFormat)
    } else if le_u64(data, offset + 4) < 44 {
        Err(ZipError::InvalidFormat)
    } else {
        Ok(
            Zip64EocdInfo {
                disk_number: le_u32(data, offset + 16),
                disk_with_cd_start: le_u32(data, offset + 20),
                num_entries: le_u64(data, offset + 32),
                cd_size: le_u64(data, offset + 40),
                cd_offset: le_u64(data, offset + 48),
            },
        )
    }
}

/// What the record at `pos` says of the central directory.
///
/// With a ZIP64 marker or locator the 64-bit values count, and only
/// single-disk archives are accepted. The directory must end at or before
/// the record.
pub open spec fn eocd_info_at(data: Seq<u8>, pos: int) -> Result<EocdInfo, ZipError> {
    let locator = zip64_locator_at(data, pos);
    if uses_zip64_sentinel(data, pos) || locator is Some {
        match locator {
            None => Err(ZipError::InvalidFormat),
            Some(loc) => if loc.disk != 0 || loc.total_disks != 1 {
                Err(ZipError::UnsupportedZip64)
            } else {
                match zip64_eocd_at(data, loc.eocd_offset as int) {
                    Err(e) => Err(e),
                    Ok(z) => if z.disk_number != 0 || z.disk_with_cd_start != 0 {
                        Err(ZipError::UnsupportedZip64)
                    } else if z.cd_offset + z.cd_size > pos {
                        Err(ZipError::InvalidFormat)
                    } else {
                        Ok(
                            EocdInfo {
                                cd_offset: z.cd_offset,
                                cd_size: z.cd_size,
                                num_entries: z.num_entries,
                            },
                        )
                    },
                }
            },
        }
    } else if le_u32(data, pos + 16) + le_u32(data, pos + 12) > pos {
        Err(ZipError::InvalidFormat)
    } else {
        Ok(
            EocdInfo {
                cd_offset: le_u32(data, pos + 16) as u64,
                cd_size: le_u32(data, pos + 12) as u64,
                num_entries: le_u16(data, pos + 8) as u64,
            },
        )
    }
}

/// The central-directory location of an archive, searched in a tail window
/// of at most `max_scan` bytes.
///
/// The last record in the window decides. Data shorter than a record, or a
/// window without a record, is a format error.
#[verifier::opaque]
pub open spec fn eocd_record(data: Seq<u8>, max_scan: int) -> Result<EocdInfo, ZipError> {
    if data.len() < 22 {
        Err(ZipError::InvalidFormat)
    } else {
        match last_eocd(data, scan_start(data.len() as int, max_scan), data.len() - 22) {
            None => Err(ZipError::InvalidFormat),
            Some(pos) => eocd_info_at(data, pos),
        }
    }
}

/// `last_eocd` is the greatest position of a record in the range, and
/// `None` exactly when the range holds none.
pub proof fn lemma_last_eocd_is_greatest(data: Seq<u8>, lo: int, hi: int)
    ensures
        match last_eocd(data, lo, hi) {
            Some(p) => {
                &&& lo <= p <= hi
                &&& is_eocd_at(data, p)
                &&& forall|q: int| p < q <= hi ==> !is_eocd_at(data, q)
            },
            None => forall|q: int| lo <= q <= hi ==> !is_eocd_at(data, q),
        },
    decreases hi - lo + 1,
{
    if hi >= lo && !is_eocd_at(data, hi) {
        lemma_last_eocd_is_greatest(data, lo, hi - 1);
    }
}

/// An accepted central directory lies wholly inside the data.
pub proof fn lemma_directory_inside_data(data: Seq<u8>, max_scan: int)
    ensures
        eocd_record(data, max_scan) matches Ok(info) ==> info.cd_offset + info.cd_size
            <= data.len() - 22,
{
    reveal(eocd_record);
    if data.len() >= 22 {
        lemma_last_eocd_is_greatest(
            data,
            scan_start(data.len() as int, max_scan),
            data.len() - 22,
        );
    }
}

/// A record that defers to ZIP64 without a locator before it is a format error.
pub proof fn lemma_sentinel_without_locator(data: Seq<u8>, pos: int)
    requires
        uses_zip64_sentinel(data, pos),
        zip64_locator_at(data, pos) is None,
    ensures
        eocd_info_at(data, pos) == Err::<EocdInfo, ZipError>(ZipError::InvalidFormat),
{
}

/// Where no record starts inside the tail window, the archive is rejected
/// as malformed, whatever lies before the window.
pub proof fn lemma_no_record_in_window(data: Seq<u8>, max_scan: int)
    requires
        forall|q: int| scan_start(data.len() as int, max_scan) <= q ==> !is_eocd_at(data, q),
    ensures
        eocd_record(data, max_scan) == Err::<EocdInfo, ZipError>(ZipError::InvalidFormat),
{
    reveal(eocd_record);
    if data.len() >= 22 {
        lemma_last_eocd_is_greatest(
            data,
            scan_start(data.len() as int, max_scan),
            data.len() - 22,
        );
    }
}

/// Reads the ZIP64 locator that may precede the record at `eocd_pos`.
pub(crate) fn read_zip64_locator(data: &[u8], eocd_pos: usize) -> (r: Option<Zip64Locator>)
    requires
        eocd_pos <= data.len(),
    ensures
        r == zip64_locator_at(data@, eocd_pos as int),
{
    if eocd_pos < 20 {
        return None;
    }
    let at: usize = eocd_pos - 20;
    if read_u32_le(data, at) != SIG_ZIP64_EOCD_LOCATOR {
        return None;
    }
    Some(
        Zip64Locator {
            disk: read_u32_le(data, at + 4),
            eocd_offset: read_u64_le(data, at + 8),
            total_disks: read_u32_le(data, at + 16),
        },
    )
}

/// Reads the ZIP64 end-of-central-directory record at `offset`.
pub fn read_zip64_eocd(data: &[u8], offset: u64) -> (r: Result<Zip64EocdInfo, ZipError>)
    ensures
        r == zip64_eocd_at(data@, offset as int),
{
    let len: usize = data.len();
    if len < 56 || offset > (len - 56) as u64 {
        return Err(ZipError::IoError);
    }
    let at: usize = offset as usize;
    if read_u32_le(data, at) != SIG_ZIP64_EOCD {
        return Err(ZipError::InvalidFormat);
    }
    let record_size: u64 = read_u64_le(data, at + 4);
    if record_size < 44 {
        return Err(ZipError::InvalidFormat);
    }
    Ok(
        Zip64EocdInfo {
            disk_number: read_u32_le(data, at + 16),
            disk_with_cd_start: read_u32_le(data, at + 20),
            num_entries: read_u64_le(data, at + 32),
            cd_size: read_u64_le(data, at + 40),
            cd_offset: read_u64_le(data, at + 48),
        },
    )
}

/// Reads what the record at `pos` says of the central directory.
pub(crate) fn read_eocd_info(data: &[u8], pos: usize) -> (r: Result<EocdInfo, ZipError>)
    requires
        pos + 22 <= data.len(),
    ensures
        r == eocd_info_at(data@, pos as int),
        r matches Ok(info) ==> info.cd_offset + info.cd_size <= pos,
{
    let num_entries: u16 = read_u16_le(data, pos + 8);
    let cd_size_32: u32 = read_u32_le(data, pos + 12);
    let cd_offset_32: u32 = read_u32_le(data, pos + 16);
    let uses_sentinel: bool = num_entries == 0xFFFF || cd_size_32 == 0xFFFF_FFFF || cd_offset_32
        == 0xFFFF_FFFF;
    let locator = read_zip64_locator(data, pos);
    let eocd_pos: u64 = pos as u64;
    match locator {
        Some(loc) => {
            if loc.disk != 0 || loc.total_disks != 1 {
                return Err(ZipError::UnsupportedZip64);
            }
            let zip64 = match read_zip64_eocd(data, loc.eocd_offset) {
                Ok(z) => z,
                Err(e) => {
                    return Err(e);
                },
            };
            if zip64.disk_number != 0 || zip64.disk_with_cd_start != 0 {
                return Err(ZipError::UnsupportedZip64);
            }
            match zip64.cd_offset.checked_add(zip64.cd_size) {
                None => Err(ZipError::InvalidFormat),
                Some(cd_end) => {
                    if cd_end > eocd_pos {
                        Err(ZipError::InvalidFormat)
                    } else {
                        Ok(
                            EocdInfo {
                                cd_offset: zip64.cd_offset,
                                cd_size: zip64.cd_size,
                                num_entries: zip64.num_entries,
                            },
                        )
                    }
                },
            }
        },
        None => {
            if uses_sentinel {
                return Err(ZipError::InvalidFormat);
            }
            let cd_end: u64 = cd_offset_32 as u64 + cd_size_32 as u64;
            if cd_end > eocd_pos {
                Err(ZipError::InvalidFormat)
            } else {
                Ok(
                    EocdInfo {
                        cd_offset: cd_offset_32 as u64,
                        cd_size: cd_size_32 as u64,
                        num_entries: num_entries as u64,
                    },
                )
            }
        },
    }
}

/// Finds the end-of-central-directory record in the last `max_eocd_scan`
/// bytes and reads the central directory's location from it.
pub fn find_eocd(data: &[u8], max_eocd_scan: usize) -> (r: Result<EocdInfo, ZipError>)
    ensures
        r == eocd_record(data@, max_eocd_scan as int),
        r matches Ok(info) ==> info.cd_offset + info.cd_size <= data.len(),
{
    proof {
        reveal(eocd_record);
    }
    let file_size: usize = data.len();
    if file_size < EOCD_MIN_SIZE {
        return Err(ZipError::InvalidFormat);
    }
    let scan_range: usize = if max_eocd_scan < file_size {
        max_eocd_scan
    } else {
        file_size
    };
    let scan_base: usize = file_size - scan_range;
    let top: usize = file_size - EOCD_MIN_SIZE;
    if scan_range < EOCD_MIN_SIZE {
        return Err(ZipError::InvalidFormat);
    }
    let mut i: usize = top;
    loop
        invariant
            file_size == data.len(),
            file_size >= 22,
            top == file_size - 22,
            scan_base == scan_start(file_size as int, max_eocd_scan as int),
            scan_base <= i <= top,
            last_eocd(data@, scan_base as int, top as int) == last_eocd(
                data@,
                scan_base as int,
                i as int,
            ),
        decreases i,
    {
        if read_u32_le(data, i) == SIG_EOCD {
            let comment_len: usize = read_u16_le(data, i + 20) as usize;
            if comment_len == file_size - (i + 22) {
                proof {
                    reveal(eocd_record);
                }
                return read_eocd_info(data, i);
            }
        }
        assert(!is_eocd_at(data@, i as int));
        if i == scan_base {
            proof {
                reveal(eocd_record);
                assert(last_eocd(data@, scan_base as int, scan_base - 1) is None);
            }
            return Err(ZipError::InvalidFormat);
        }
        i -= 1;
    }
}

} // verus!
