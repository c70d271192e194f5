//! What a read of one entry comes to: which error it ends with, which bytes
//! it delivers, and what it leaves in the caller's buffer or vector.

use crate::checksum::crc32_of;
use crate::error::ZipError;
use crate::read::{
    buffered_stored, data_offset_at, inflate_start, inflated_bytes, inflated_read,
    inflated_stream, lemma_inflate_into_checks, lemma_inflate_onto_checks, span,
    stored_partly_written, stored_payload, streamed_bytes,
};
use crate::zip::{CdEntryView, ZipLimits, METHOD_DEFLATED, METHOD_STORED};
use vstd::prelude::*;

verus! {

/// The size limit refuses the entry.
pub open spec fn exceeds_read_limit(limits: Option<ZipLimits>, entry: CdEntryView) -> bool {
    limits matches Some(l) && (entry.uncompressed_size > l.max_file_read_size
        || entry.compressed_size > l.max_file_read_size)
}

/// What a read of an entry comes to, before any decompression.
pub enum ReadPlan {
    /// The read fails and nothing is written.
    Fail(ZipError),
    /// The entry is stored at the given position, and reading its bytes fails
    /// after some of them may have been written.
    Broken(ZipError, int),
    /// The entry is stored and these are its bytes.
    Stored(Seq<u8>),
    /// The entry is deflated and its compressed data begins at the given
    /// position.
    Inflate(int),
}

/// What a read into a buffer of `buf_len` bytes comes to, with a scratch
/// buffer of `scratch_len` bytes.
///
/// An empty scratch buffer is refused first, then an entry over the size
/// limit, then a buffer that cannot hold the declared uncompressed size.
/// The local file header is read before the compression method is looked
/// at.
pub open spec fn buffered_plan(
    data: Seq<u8>,
    limits: Option<ZipLimits>,
    entry: CdEntryView,
    buf_len: int,
    scratch_len: int,
) -> ReadPlan {
    if scratch_len == 0 {
        ReadPlan::Fail(ZipError::BufferTooSmall)
    } else if exceeds_read_limit(limits, entry) {
        ReadPlan::Fail(ZipError::FileTooLarge)
    } else if entry.uncompressed_size > usize::MAX {
        ReadPlan::Fail(ZipError::FileTooLarge)
    } else if entry.uncompressed_size > buf_len {
        ReadPlan::Fail(ZipError::BufferTooSmall)
    } else {
        match data_offset_at(data, entry.local_header_offset as int) {
            Err(e) => ReadPlan::Fail(e),
            Ok(start) => if entry.method == METHOD_STORED {
                match buffered_stored(data, entry, start, buf_len) {
                    Ok(bytes) => ReadPlan::Stored(bytes),
                    Err(e) => if e == ZipError::CrcMismatch {
                        ReadPlan::Broken(e, start)
                    } else {
                        ReadPlan::Fail(e)
                    },
                }
            } else if entry.method == METHOD_DEFLATED {
                ReadPlan::Inflate(start)
            } else {
                ReadPlan::Fail(ZipError::UnsupportedCompression)
            },
        }
    }
}

/// What a read that appends to a vector comes to, with scratch buffers of
/// `input_len` and `output_len` bytes.
pub open spec fn streamed_plan(
    data: Seq<u8>,
    limits: Option<ZipLimits>,
    entry: CdEntryView,
    input_len: int,
    output_len: int,
) -> ReadPlan {
    if input_len == 0 || output_len == 0 {
        ReadPlan::Fail(ZipError::BufferTooSmall)
    } else if exceeds_read_limit(limits, entry) {
        ReadPlan::Fail(ZipError::FileTooLarge)
    } else {
        match data_offset_at(data, entry.local_header_offset as int) {
            Err(e) => ReadPlan::Fail(e),
            Ok(start) => if entry.method == METHOD_STORED {
                match stored_payload(data, entry, start) {
                    Ok(bytes) => ReadPlan::Stored(bytes),
                    Err(e) => ReadPlan::Broken(e, start),
                }
            } else if entry.method == METHOD_DEFLATED {
                ReadPlan::Inflate(start)
            } else {
                ReadPlan::Fail(ZipError::UnsupportedCompression)
            },
        }
    }
}

/// A read into a buffer, with a scratch buffer of `scratch_len` bytes, did
/// what its plan says: `before` and `after` are the buffer's contents.
pub open spec fn buffered_outcome(
    plan: ReadPlan,
    r: Result<usize, ZipError>,
    before: Seq<u8>,
    after: Seq<u8>,
    data: Seq<u8>,
    entry: CdEntryView,
    scratch_len: int,
) -> bool {
    &&& after.len() == before.len()
    &&& match plan {
        ReadPlan::Fail(e) => r == Err::<usize, ZipError>(e) && after == before,
        ReadPlan::Broken(e, start) => r == Err::<usize, ZipError>(e) && after == span(
            data,
            start,
            entry.compressed_size as int,
        ) + before.subrange(entry.compressed_size as int, before.len() as int),
        ReadPlan::Stored(bytes) => r == Ok::<usize, ZipError>(bytes.len() as usize) && after
            == bytes + before.subrange(bytes.len() as int, before.len() as int),
        ReadPlan::Inflate(start) => (r, after) == inflated_read(
            data,
            entry,
            start,
            before,
            scratch_len,
        ),
    }
}

/// A read that appends to a vector, with scratch buffers of `input_len` and
/// `output_len` bytes, did what its plan says: `before` and `after` are the
/// vector's contents.
pub open spec fn streamed_outcome(
    plan: ReadPlan,
    r: Result<usize, ZipError>,
    before: Seq<u8>,
    after: Seq<u8>,
    data: Seq<u8>,
    entry: CdEntryView,
    input_len: int,
    output_len: int,
) -> bool {
    match plan {
        ReadPlan::Fail(e) => r == Err::<usize, ZipError>(e) && after == before,
        ReadPlan::Broken(e, start) => r == Err::<usize, ZipError>(e) && stored_partly_written(
            e,
            before,
            after,
            data,
            entry,
            start,
            input_len,
        ),
        ReadPlan::Stored(bytes) => r == Ok::<usize, ZipError>(bytes.len() as usize) && after
            == before + bytes,
        ReadPlan::Inflate(start) => (r, after) == inflated_stream(
            data,
            entry,
            start,
            before,
            input_len,
            output_len,
        ),
    }
}

/// Where a read into a buffer delivers the bytes of a stored entry, a read
/// that appends to a vector delivers the same bytes, whatever the sizes of
/// its scratch buffers. Where the one inflates, the other inflates the same
/// compressed data.
pub proof fn lemma_buffered_read_is_streamed_read(
    data: Seq<u8>,
    limits: Option<ZipLimits>,
    entry: CdEntryView,
    buf_len: int,
    scratch_len: int,
    input_len: int,
    output_len: int,
)
    requires
        input_len > 0,
        output_len > 0,
    ensures
        buffered_plan(data, limits, entry, buf_len, scratch_len) matches ReadPlan::Stored(bytes)
            ==> streamed_plan(data, limits, entry, input_len, output_len) == ReadPlan::Stored(
            bytes,
        ),
        buffered_plan(data, limits, entry, buf_len, scratch_len) matches ReadPlan::Inflate(start)
            ==> streamed_plan(data, limits, entry, input_len, output_len) == ReadPlan::Inflate(
            start,
        ),
{
}

/// Where a read that appends to a vector delivers the bytes of a stored
/// entry, a read into a buffer that is large enough for them, and for the
/// declared uncompressed size, delivers the same bytes.
pub proof fn lemma_streamed_read_is_buffered_read(
    data: Seq<u8>,
    limits: Option<ZipLimits>,
    entry: CdEntryView,
    buf_len: int,
    scratch_len: int,
    input_len: int,
    output_len: int,
)
    requires
        scratch_len > 0,
        buf_len <= usize::MAX,
        entry.uncompressed_size <= buf_len,
        entry.compressed_size <= buf_len,
    ensures
        streamed_plan(data, limits, entry, input_len, output_len) matches ReadPlan::Stored(bytes)
            ==> buffered_plan(data, limits, entry, buf_len, scratch_len) == ReadPlan::Stored(
            bytes,
        ),
{
}

/// For a stored entry, a read into a buffer that succeeds and a read that
/// appends to a vector give the same result: the same count, and the bytes
/// appended are the bytes at the front of the buffer.
pub proof fn lemma_stored_reads_deliver_same_bytes(
    data: Seq<u8>,
    limits: Option<ZipLimits>,
    entry: CdEntryView,
    buffered: Result<usize, ZipError>,
    buf_before: Seq<u8>,
    buf_after: Seq<u8>,
    scratch_len: int,
    streamed: Result<usize, ZipError>,
    vec_before: Seq<u8>,
    vec_after: Seq<u8>,
    input_len: int,
    output_len: int,
)
    requires
        entry.method == METHOD_STORED,
        input_len > 0,
        output_len > 0,
        buffered_outcome(
            buffered_plan(data, limits, entry, buf_before.len() as int, scratch_len),
            buffered,
            buf_before,
            buf_after,
            data,
            entry,
            scratch_len,
        ),
        streamed_outcome(
            streamed_plan(data, limits, entry, input_len, output_len),
            streamed,
            vec_before,
            vec_after,
            data,
            entry,
            input_len,
            output_len,
        ),
        buffered is Ok,
    ensures
        streamed == buffered,
        vec_after == vec_before + buf_after.subrange(0, buffered.unwrap() as int),
{
    match buffered_plan(data, limits, entry, buf_before.len() as int, scratch_len) {
        ReadPlan::Stored(bytes) => {
            assert(buf_after.subrange(0, bytes.len() as int) =~= bytes);
        },
        _ => {},
    }
}

/// A read into a buffer can be repeated: two reads of one entry into
/// buffers of one size, with scratch buffers of one size, give the same
/// result, and on success the same bytes, whatever the buffers held and
/// whatever was read in between.
pub proof fn lemma_read_is_repeatable(
    data: Seq<u8>,
    limits: Option<ZipLimits>,
    entry: CdEntryView,
    scratch_len: int,
    first: Result<usize, ZipError>,
    first_before: Seq<u8>,
    first_after: Seq<u8>,
    second: Result<usize, ZipError>,
    second_before: Seq<u8>,
    second_after: Seq<u8>,
)
    requires
        first_before.len() == second_before.len(),
        first_before.len() <= usize::MAX,
        buffered_outcome(
            buffered_plan(data, limits, entry, first_before.len() as int, scratch_len),
            first,
            first_before,
            first_after,
            data,
            entry,
            scratch_len,
        ),
        buffered_outcome(
            buffered_plan(data, limits, entry, second_before.len() as int, scratch_len),
            second,
            second_before,
            second_after,
            data,
            entry,
            scratch_len,
        ),
    ensures
        second == first,
        first matches Ok(n) ==> second_after.subrange(0, n as int) == first_after.subrange(
            0,
            n as int,
        ),
{
    match buffered_plan(data, limits, entry, first_before.len() as int, scratch_len) {
        ReadPlan::Stored(bytes) => {
            assert(first_after.subrange(0, bytes.len() as int) =~= bytes);
            assert(second_after.subrange(0, bytes.len() as int) =~= bytes);
        },
        ReadPlan::Inflate(start) => {
            if entry.compressed_size <= usize::MAX {
                let run = inflate_start(entry, start);
                lemma_inflate_into_checks(
                    data,
                    entry.crc32,
                    first_before.len(),
                    scratch_len as nat,
                    run,
                );
                let out = inflated_bytes(
                    data,
                    entry,
                    start,
                    first_before.len(),
                    scratch_len as nat,
                ).1;
                if first is Ok {
                    assert(first_after.subrange(0, out.len() as int) =~= out);
                    assert(second_after.subrange(0, out.len() as int) =~= out);
                }
            }
        },
        _ => {},
    }
}

/// A successful read into a buffer never delivers bytes whose CRC-32
/// differs from that of the entry. Only a stored entry with a CRC-32 of
/// zero is not checked.
pub proof fn lemma_buffered_read_checks_crc(
    data: Seq<u8>,
    limits: Option<ZipLimits>,
    entry: CdEntryView,
    r: Result<usize, ZipError>,
    before: Seq<u8>,
    after: Seq<u8>,
    scratch_len: int,
)
    requires
        buffered_outcome(
            buffered_plan(data, limits, entry, before.len() as int, scratch_len),
            r,
            before,
            after,
            data,
            entry,
            scratch_len,
        ),
        r is Ok,
        before.len() <= usize::MAX,
        entry.crc32 != 0 || entry.method == METHOD_DEFLATED,
    ensures
        crc32_of(after.subrange(0, r.unwrap() as int)) == entry.crc32,
{
    match buffered_plan(data, limits, entry, before.len() as int, scratch_len) {
        ReadPlan::Stored(bytes) => {
            assert(after.subrange(0, bytes.len() as int) =~= bytes);
        },
        ReadPlan::Inflate(start) => {
            let run = inflate_start(entry, start);
            lemma_inflate_into_checks(data, entry.crc32, before.len(), scratch_len as nat, run);
            let out = inflated_bytes(data, entry, start, before.len(), scratch_len as nat).1;
            assert(after.subrange(0, out.len() as int) =~= out);
        },
        _ => {},
    }
}

/// A successful read that appends to a vector never appends bytes whose
/// CRC-32 differs from that of the entry. Only a stored entry with a CRC-32
/// of zero is not checked.
pub proof fn lemma_streamed_read_checks_crc(
    data: Seq<u8>,
    limits: Option<ZipLimits>,
    entry: CdEntryView,
    r: Result<usize, ZipError>,
    before: Seq<u8>,
    after: Seq<u8>,
    input_len: int,
    output_len: int,
)
    requires
        streamed_outcome(
            streamed_plan(data, limits, entry, input_len, output_len),
            r,
            before,
            after,
            data,
            entry,
            input_len,
            output_len,
        ),
        r is Ok,
        entry.crc32 != 0 || entry.method == METHOD_DEFLATED,
    ensures
        before.len() <= after.len(),
        crc32_of(after.subrange(before.len() as int, after.len() as int)) == entry.crc32,
{
    match streamed_plan(data, limits, entry, input_len, output_len) {
        ReadPlan::Stored(bytes) => {
            assert(after.subrange(before.len() as int, after.len() as int) =~= bytes);
        },
        ReadPlan::Inflate(start) => {
            let run = inflate_start(entry, start);
            lemma_inflate_onto_checks(
                data,
                entry.crc32,
                input_len as nat,
                output_len as nat,
                run,
            );
            let out = streamed_bytes(data, entry, start, input_len as nat, output_len as nat).1;
            assert(after.subrange(before.len() as int, after.len() as int) =~= out);
        },
        _ => {},
    }
}

} // verus!
