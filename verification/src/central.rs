//! Parsing central-directory records.
//!
//! Positions are 64-bit offsets into the archive. A read that reaches past
//! the end of the data, or a skip that leaves the 64-bit range, is an I/O
//! error.

use crate::error::ZipError;
use crate::le::{le_u16, le_u32, le_u64, read_u16_le, read_u32_le, read_u64_le};
use crate::text::{string_from_utf8_lossy, utf8_lossy};
use crate::zip::{CdEntry, CdEntryView, MAX_FILENAME_LEN};
use vstd::prelude::*;
use vstd::slice::slice_subrange;
use vstd::utf8::{decode_utf8, valid_utf8};

verus! {

/// Central directory entry signature.
pub const SIG_CD_ENTRY: u32 = 0x02014b50;

/// Size of the fixed part of a central-directory record.
pub const CD_ENTRY_FIXED_SIZE: usize = 46;

/// Header id of the ZIP64 extended information extra field.
pub const ZIP64_EXTRA_ID: u16 = 0x0001;

/// Which of an entry's 32-bit fields defer to a ZIP64 extra field.
#[derive(Clone, Copy, Debug, PartialEq, Eq, Structural)]
pub struct Zip64Needs {
    /// The uncompressed size is `0xFFFFFFFF`.
    pub uncompressed_size: bool,
    /// The compressed size is `0xFFFFFFFF`.
    pub compressed_size: bool,
    /// The local header offset is `0xFFFFFFFF`.
    pub local_header_offset: bool,
}

/// The 64-bit values found in ZIP64 extra fields so far.
#[derive(Clone, Copy, Debug, PartialEq, Eq, Structural)]
pub struct Zip64Extra {
    /// Uncompressed size.
    pub uncompressed_size: Option<u64>,
    /// Compressed size.
    pub compressed_size: Option<u64>,
    /// Local header offset.
    pub local_header_offset: Option<u64>,
}

/// No ZIP64 value found yet.
pub open spec fn no_zip64() -> Zip64Extra {
    Zip64Extra { uncompressed_size: None, compressed_size: None, local_header_offset: None }
}

/// The position `n` bytes after `p`, or an I/O error where that leaves the
/// 64-bit range.
pub open spec fn seek_forward(p: int, n: int) -> Result<int, ZipError> {
    if p + n > u64::MAX {
        Err(ZipError::IoError)
    } else {
        Ok(p + n)
    }
}

/// One optional 64-bit value of a ZIP64 field: where it is needed, the next
/// eight bytes of the field, of which `left` remain. Gives the value, the
/// position after it and the bytes of the field then left.
pub open spec fn zip64_value_at(
    data: Seq<u8>,
    p: int,
    left: int,
    needed: bool,
    found: Option<u64>,
) -> Result<(Option<u64>, int, int), ZipError> {
    if !needed {
        Ok((found, p, left))
    } else if left < 8 {
        Err(ZipError::InvalidFormat)
    } else if p + 8 > data.len() {
        Err(ZipError::IoError)
    } else {
        Ok((Some(le_u64(data, p)), p + 8, left - 8))
    }
}

/// A ZIP64 extended information field whose `size` payload bytes start at
/// `p`: the needed values in the order uncompressed size, compressed size,
/// local header offset, and then the position after the field.
pub open spec fn zip64_field_at(
    data: Seq<u8>,
    p: int,
    size: int,
    needs: Zip64Needs,
    found: Zip64Extra,
) -> Result<(Zip64Extra, int), ZipError> {
    match zip64_value_at(data, p, size, needs.uncompressed_size, found.uncompressed_size) {
        Err(e) => Err(e),
        Ok((u, p1, left1)) => match zip64_value_at(
            data,
            p1,
            left1,
            needs.compressed_size,
            found.compressed_size,
        ) {
            Err(e) => Err(e),
            Ok((c, p2, left2)) => match zip64_value_at(
                data,
                p2,
                left2,
                needs.local_header_offset,
                found.local_header_offset,
            ) {
                Err(e) => Err(e),
                Ok((o, p3, left3)) => match seek_forward(p3, left3) {
                    Err(e) => Err(e),
                    Ok(q) => Ok(
                        (
                            Zip64Extra {
                                uncompressed_size: u,
                                compressed_size: c,
                                local_header_offset: o,
                            },
                            q,
                        ),
                    ),
                },
            },
        },
    }
}

/// The extra fields in the `remaining` bytes at `p`: the ZIP64 values they
/// hold and the position after them.
///
/// Each field is a 4-byte header and its payload. A payload that is longer
/// than what remains is a format error. Fewer than four trailing bytes are
/// skipped.
pub open spec fn extra_fields_at(
    data: Seq<u8>,
    p: int,
    remaining: int,
    needs: Zip64Needs,
    found: Zip64Extra,
) -> Result<(Zip64Extra, int), ZipError>
    decreases remaining,
{
    if remaining < 4 {
        match seek_forward(p, remaining) {
            Err(e) => Err(e),
            Ok(q) => Ok((found, q)),
        }
    } else if p + 4 > data.len() {
        Err(ZipError::IoError)
    } else {
        let size = le_u16(data, p + 2) as int;
        if size > remaining - 4 {
            Err(ZipError::InvalidFormat)
        } else if le_u16(data, p) == ZIP64_EXTRA_ID {
            match zip64_field_at(data, p + 4, size, needs, found) {
                Err(e) => Err(e),
                Ok((found2, q)) => extra_fields_at(data, q, remaining - 4 - size, needs, found2),
            }
        } else {
            match seek_forward(p + 4, size) {
                Err(e) => Err(e),
                Ok(q) => extra_fields_at(data, q, remaining - 4 - size, needs, found),
            }
        }
    }
}

/// The text of a file name: the text that well-formed UTF-8 bytes encode,
/// and otherwise their lossy decoding, with U+FFFD for every malformed part.
pub open spec fn filename_text(bytes: Seq<u8>) -> Seq<char> {
    if valid_utf8(bytes) {
        decode_utf8(bytes)
    } else {
        utf8_lossy(bytes)
    }
}

/// The file name of `name_len` bytes at `p` and the position after it. A
/// name of more than [`MAX_FILENAME_LEN`] bytes is skipped and left empty.
pub open spec fn cd_filename_at(data: Seq<u8>, p: int, name_len: int) -> Result<
    (Seq<char>, int),
    ZipError,
> {
    if 0 < name_len <= MAX_FILENAME_LEN {
        if p + name_len > data.len() {
            Err(ZipError::IoError)
        } else {
            Ok((filename_text(data.subrange(p, p + name_len)), p + name_len))
        }
    } else {
        match seek_forward(p, name_len) {
            Err(e) => Err(e),
            Ok(q) => Ok((Seq::<char>::empty(), q)),
        }
    }
}

/// Which 32-bit fields of the record at `pos` defer to ZIP64.
pub open spec fn zip64_needs_at(data: Seq<u8>, pos: int) -> Zip64Needs {
    Zip64Needs {
        uncompressed_size: le_u32(data, pos + 24) == 0xFFFF_FFFF,
        compressed_size: le_u32(data, pos + 20) == 0xFFFF_FFFF,
        local_header_offset: le_u32(data, pos + 42) == 0xFFFF_FFFF,
    }
}

/// A value that was deferred to ZIP64 was not found.
pub open spec fn zip64_missing(needs: Zip64Needs, found: Zip64Extra) -> bool {
    ||| needs.uncompressed_size && found.uncompressed_size is None
    ||| needs.compressed_size && found.compressed_size is None
    ||| needs.local_header_offset && found.local_header_offset is None
}

/// The 64-bit value of a field: the ZIP64 value where one was found, else
/// the 32-bit base value.
pub open spec fn upgraded(base: u32, found: Option<u64>) -> u64 {
    match found {
        Some(v) => v,
        None => base as u64,
    }
}

/// The central-directory record at `pos`, with the position after it.
///
/// `Ok(None)` where no record starts at `pos`: fewer than four bytes are
/// left, or they are not the record signature.
pub open spec fn cd_entry_at(data: Seq<u8>, pos: int) -> Result<
    Option<(CdEntryView, int)>,
    ZipError,
> {
    if pos + 4 > data.len() || le_u32(data, pos) != SIG_CD_ENTRY {
        Ok(None)
    } else if pos + 46 > data.len() {
        Err(ZipError::IoError)
    } else {
        let needs = zip64_needs_at(data, pos);
        match cd_filename_at(data, pos + 46, le_u16(data, pos + 28) as int) {
            Err(e) => Err(e),
            Ok((filename, p1)) => match extra_fields_at(
                data,
                p1,
                le_u16(data, pos + 30) as int,
                needs,
                no_zip64(),
            ) {
                Err(e) => Err(e),
                Ok((found, p2)) => if zip64_missing(needs, found) {
                    Err(ZipError::InvalidFormat)
                } else {
                    match seek_forward(p2, le_u16(data, pos + 32) as int) {
                        Err(e) => Err(e),
                        Ok(p3) => Ok(
                            Some(
                                (
                                    CdEntryView {
                                        method: le_u16(data, pos + 10),
                                        compressed_size: upgraded(
                                            le_u32(data, pos + 20),
                                            found.compressed_size,
                                        ),
                                        uncompressed_size: upgraded(
                                            le_u32(data, pos + 24),
                                            found.uncompressed_size,
                                        ),
                                        local_header_offset: upgraded(
                                            le_u32(data, pos + 42),
                                            found.local_header_offset,
                                        ),
                                        crc32: le_u32(data, pos + 16),
                                        filename,
                                    },
                                    p3,
                                ),
                            ),
                        ),
                    }
                },
            },
        }
    }
}

/// A parsed record agrees with what the data holds at a position.
pub open spec fn is_cd_entry_at(
    r: Result<Option<(CdEntry, u64)>, ZipError>,
    data: Seq<u8>,
    pos: int,
) -> bool {
    match cd_entry_at(data, pos) {
        Err(e) => r == Err::<Option<(CdEntry, u64)>, ZipError>(e),
        Ok(None) => r == Ok::<Option<(CdEntry, u64)>, ZipError>(None),
        Ok(Some((entry, next))) => r matches Ok(Some((e, n))) && e@ == entry && n == next,
    }
}

/// `n` bytes of the data are there at `pos`.
pub(crate) fn available(data: &[u8], pos: u64, n: usize) -> (r: bool)
    ensures
        r == (pos + n <= data.len()),
{
    let len: usize = data.len();
    n <= len && pos <= (len - n) as u64
}

/// Moves a position forward.
pub(crate) fn skip(p: u64, n: u64) -> (r: Result<u64, ZipError>)
    ensures
        match seek_forward(p as int, n as int) {
            Ok(q) => r == Ok::<u64, ZipError>(q as u64) && q <= u64::MAX,
            Err(e) => r == Err::<u64, ZipError>(e),
        },
{
    match p.checked_add(n) {
        Some(q) => Ok(q),
        None => Err(ZipError::IoError),
    }
}

fn read_zip64_value(data: &[u8], p: u64, left: usize, needed: bool, found: Option<u64>) -> (r:
    Result<(Option<u64>, u64, usize), ZipError>)
    ensures
        match zip64_value_at(data@, p as int, left as int, needed, found) {
            Ok((v, q, l)) => r == Ok::<(Option<u64>, u64, usize), ZipError>(
                (v, q as u64, l as usize),
            ) && 0 <= q <= u64::MAX && 0 <= l <= left,
            Err(e) => r == Err::<(Option<u64>, u64, usize), ZipError>(e),
        },
{
    if !needed {
        return Ok((found, p, left));
    }
    if left < 8 {
        return Err(ZipError::InvalidFormat);
    }
    if !available(data, p, 8) {
        return Err(ZipError::IoError);
    }
    let v: u64 = read_u64_le(data, p as usize);
    Ok((Some(v), p + 8, left - 8))
}

/// Reads a ZIP64 extended information field.
fn read_zip64_field(data: &[u8], p: u64, size: usize, needs: Zip64Needs, found: Zip64Extra) -> (r:
    Result<(Zip64Extra, u64), ZipError>)
    ensures
        match zip64_field_at(data@, p as int, size as int, needs, found) {
            Ok((f, q)) => r == Ok::<(Zip64Extra, u64), ZipError>((f, q as u64)) && 0 <= q
                <= u64::MAX,
            Err(e) => r == Err::<(Zip64Extra, u64), ZipError>(e),
        },
{
    let (u, p1, left1) = match read_zip64_value(
        data,
        p,
        size,
        needs.uncompressed_size,
        found.uncompressed_size,
    ) {
        Ok(t) => t,
        Err(e) => {
            return Err(e);
        },
    };
    let (c, p2, left2) = match read_zip64_value(
        data,
        p1,
        left1,
        needs.compressed_size,
        found.compressed_size,
    ) {
        Ok(t) => t,
        Err(e) => {
            return Err(e);
        },
    };
    let (o, p3, left3) = match read_zip64_value(
        data,
        p2,
        left2,
        needs.local_header_offset,
        found.local_header_offset,
    ) {
        Ok(t) => t,
        Err(e) => {
            return Err(e);
        },
    };
    let q: u64 = match skip(p3, left3 as u64) {
        Ok(q) => q,
        Err(e) => {
            return Err(e);
        },
    };
    Ok((Zip64Extra { uncompressed_size: u, compressed_size: c, local_header_offset: o }, q))
}

/// Reads the extra fields of a record.
fn read_extra_fields(data: &[u8], start: u64, extra_len: usize, needs: Zip64Needs) -> (r: Result<
    (Zip64Extra, u64),
    ZipError,
>)
    ensures
        match extra_fields_at(data@, start as int, extra_len as int, needs, no_zip64()) {
            Ok((f, q)) => r == Ok::<(Zip64Extra, u64), ZipError>((f, q as u64)) && 0 <= q
                <= u64::MAX,
            Err(e) => r == Err::<(Zip64Extra, u64), ZipError>(e),
        },
{
    let mut found = Zip64Extra {
        uncompressed_size: None,
        compressed_size: None,
        local_header_offset: None,
    };
    let mut p: u64 = start;
    let mut remaining: usize = extra_len;
    while remaining >= 4
        invariant
            extra_fields_at(data@, start as int, extra_len as int, needs, no_zip64())
                == extra_fields_at(data@, p as int, remaining as int, needs, found),
        decreases remaining,
    {
        if !available(data, p, 4) {
            return Err(ZipError::IoError);
        }
        let at: usize = p as usize;
        let header_id: u16 = read_u16_le(data, at);
        let field_size: usize = read_u16_le(data, at + 2) as usize;
        remaining -= 4;
        if field_size > remaining {
            return Err(ZipError::InvalidFormat);
        }
        if header_id == ZIP64_EXTRA_ID {
            let (f, q) = match read_zip64_field(data, p + 4, field_size, needs, found) {
                Ok(t) => t,
                Err(e) => {
                    return Err(e);
                },
            };
            found = f;
            p = q;
        } else {
            p =
            match skip(p + 4, field_size as u64) {
                Ok(q) => q,
                Err(e) => {
                    return Err(e);
                },
            };
        }
        remaining -= field_size;
    }
    match skip(p, remaining as u64) {
        Ok(q) => Ok((found, q)),
        Err(e) => Err(e),
    }
}

/// Reads the file name of a record.
fn read_cd_filename(data: &[u8], p: u64, name_len: usize) -> (r: Result<(String, u64), ZipError>)
    ensures
        match cd_filename_at(data@, p as int, name_len as int) {
            Ok((name, q)) => r matches Ok((s, n)) && s@ == name && n == q,
            Err(e) => r == Err::<(String, u64), ZipError>(e),
        },
{
    if name_len > 0 && name_len <= MAX_FILENAME_LEN {
        if !available(data, p, name_len) {
            return Err(ZipError::IoError);
        }
        let at: usize = p as usize;
        let name = string_from_utf8_lossy(slice_subrange(data, at, at + name_len));
        Ok((name, p + name_len as u64))
    } else {
        match skip(p, name_len as u64) {
            Ok(q) => Ok((String::new(), q)),
            Err(e) => Err(e),
        }
    }
}

/// Reads the central-directory record at `pos`.
///
/// Gives the entry and the position of what follows it, or `None` where no
/// record starts at `pos`.
pub fn read_cd_entry(data: &[u8], pos: u64) -> (r: Result<Option<(CdEntry, u64)>, ZipError>)
    ensures
        is_cd_entry_at(r, data@, pos as int),
{
    if !available(data, pos, 4) {
        return Ok(None);
    }
    let at: usize = pos as usize;
    if read_u32_le(data, at) != SIG_CD_ENTRY {
        return Ok(None);
    }
    if !available(data, pos, CD_ENTRY_FIXED_SIZE) {
        return Err(ZipError::IoError);
    }
    let method: u16 = read_u16_le(data, at + 10);
    let crc32: u32 = read_u32_le(data, at + 16);
    let compressed_size_32: u32 = read_u32_le(data, at + 20);
    let uncompressed_size_32: u32 = read_u32_le(data, at + 24);
    let name_len: usize = read_u16_le(data, at + 28) as usize;
    let extra_len: usize = read_u16_le(data, at + 30) as usize;
    let comment_len: u64 = read_u16_le(data, at + 32) as u64;
    let local_header_offset_32: u32 = read_u32_le(data, at + 42);
    let needs = Zip64Needs {
        uncompressed_size: uncompressed_size_32 == 0xFFFF_FFFF,
        compressed_size: compressed_size_32 == 0xFFFF_FFFF,
        local_header_offset: local_header_offset_32 == 0xFFFF_FFFF,
    };
    let (filename, p1) = match read_cd_filename(data, pos + 46, name_len) {
        Ok(t) => t,
        Err(e) => {
            return Err(e);
        },
    };
    let (found, p2) = match read_extra_fields(data, p1, extra_len, needs) {
        Ok(t) => t,
        Err(e) => {
            return Err(e);
        },
    };
    if (needs.uncompressed_size && found.uncompressed_size.is_none()) || (needs.compressed_size
        && found.compressed_size.is_none()) || (needs.local_header_offset
        && found.local_header_offset.is_none()) {
        return Err(ZipError::InvalidFormat);
    }
    let p3: u64 = match skip(p2, comment_len) {
        Ok(q) => q,
        Err(e) => {
            return Err(e);
        },
    };
    let entry = CdEntry {
        method,
        compressed_size: match found.compressed_size {
            Some(v) => v,
            None => compressed_size_32 as u64,
        },
        uncompressed_size: match found.uncompressed_size {
            Some(v) => v,
            None => uncompressed_size_32 as u64,
        },
        local_header_offset: match found.local_header_offset {
            Some(v) => v,
            None => local_header_offset_32 as u64,
        },
        crc32,
        filename,
    };
    Ok(Some((entry, p3)))
}

} // verus!
