//! Reading the data of one entry: locating it behind its local file header,
//! copying or inflating it, and checking its CRC-32.

use crate::central::{available, seek_forward, skip};
use crate::checksum::{crc32, crc32_of, hasher_finalize, hasher_new, hasher_update, hasher_value};
use crate::error::ZipError;
use crate::inflate::{
    inflate_chunk, inflate_fed, inflate_step_of, judge_step, new_inflate_state, verdict_of,
    InflateStatus, InflateStep, InflateVerdict,
};
use crate::le::{le_u16, le_u32, read_u16_le, read_u32_le};
use crate::zip::{CdEntry, CdEntryView};
use vstd::prelude::*;
use vstd::slice::slice_subrange;

verus! {

/// Local file header signature.
pub const SIG_LOCAL_FILE_HEADER: u32 = 0x04034b50;

/// Size of the fixed part of a local file header.
pub const LOCAL_HEADER_FIXED_SIZE: usize = 30;

/// The `n` bytes of the data at `start`; nothing where `n` is zero,
/// wherever `start` lies.
pub open spec fn span(data: Seq<u8>, start: int, n: int) -> Seq<u8> {
    if n <= 0 {
        Seq::<u8>::empty()
    } else {
        data.subrange(start, start + n)
    }
}

/// Where the data of an entry begins, given the position of its local file
/// header: behind the 30 fixed bytes, the file name and the extra field.
pub open spec fn data_offset_at(data: Seq<u8>, header: int) -> Result<int, ZipError> {
    if header + 30 > data.len() {
        Err(ZipError::IoError)
    } else if le_u32(data, header) != SIG_LOCAL_FILE_HEADER {
        Err(ZipError::InvalidFormat)
    } else {
        seek_forward(header + 30, le_u16(data, header + 26) + le_u16(data, header + 28))
    }
}

/// The bytes of a stored entry whose data begins at `start`.
///
/// A size that does not fit in `usize` is refused, data that ends before
/// the entry does is an I/O error, and a nonzero CRC-32 must be that of the
/// bytes.
pub open spec fn stored_payload(data: Seq<u8>, entry: CdEntryView, start: int) -> Result<
    Seq<u8>,
    ZipError,
> {
    if entry.compressed_size > usize::MAX {
        Err(ZipError::FileTooLarge)
    } else if entry.compressed_size > 0 && start + entry.compressed_size > data.len() {
        Err(ZipError::IoError)
    } else if entry.crc32 != 0 && crc32_of(span(data, start, entry.compressed_size as int))
        != entry.crc32 {
        Err(ZipError::CrcMismatch)
    } else {
        Ok(span(data, start, entry.compressed_size as int))
    }
}

/// The bytes of a stored entry that is read into a buffer of `buf_len`
/// bytes: the buffer must hold them all.
pub open spec fn buffered_stored(data: Seq<u8>, entry: CdEntryView, start: int, buf_len: int)
    -> Result<Seq<u8>, ZipError> {
    if entry.compressed_size > usize::MAX {
        Err(ZipError::FileTooLarge)
    } else if entry.compressed_size > buf_len {
        Err(ZipError::BufferTooSmall)
    } else {
        stored_payload(data, entry, start)
    }
}

/// Where an inflating read stands between two steps of the decompressor.
pub struct InflateRun {
    /// The calls that the decompressor has served.
    pub fed: Seq<(Seq<u8>, int)>,
    /// Compressed bytes of the entry that are not yet taken from the data.
    pub remaining: nat,
    /// Position in the data of the next compressed byte to take.
    pub pos: nat,
    /// Compressed bytes that are taken and not yet consumed.
    pub pending: Seq<u8>,
    /// The bytes produced so far.
    pub out: Seq<u8>,
}

/// An inflating read before its first step: nothing fed, taken or produced.
pub open spec fn inflate_start(entry: CdEntryView, start: int) -> InflateRun {
    InflateRun {
        fed: Seq::<(Seq<u8>, int)>::empty(),
        remaining: entry.compressed_size as nat,
        pos: start as nat,
        pending: Seq::<u8>::empty(),
        out: Seq::<u8>::empty(),
    }
}

/// The read after it has taken the next chunk of compressed bytes, where
/// none is pending and some remain: at most `chunk` bytes, and an I/O error
/// where the data ends before them.
pub open spec fn refilled(data: Seq<u8>, run: InflateRun, chunk: nat) -> Result<
    InflateRun,
    ZipError,
> {
    if run.pending.len() == 0 && run.remaining > 0 {
        let take = if run.remaining < chunk {
            run.remaining
        } else {
            chunk
        };
        if run.pos + take > data.len() {
            Err(ZipError::IoError)
        } else {
            Ok(
                InflateRun {
                    remaining: (run.remaining - take) as nat,
                    pos: run.pos + take,
                    pending: data.subrange(run.pos as int, (run.pos + take) as int),
                    ..run
                },
            )
        }
    } else {
        Ok(run)
    }
}

/// A step stayed within the input it was offered and the room it had.
pub open spec fn step_in_bounds(step: InflateStep, bytes: Seq<u8>, input_len: int, room: int)
    -> bool {
    &&& step.consumed <= input_len
    &&& step.produced <= room
    &&& bytes.len() == step.produced
}

/// The read after a step that had `room` bytes for output.
pub open spec fn after_step(run: InflateRun, room: int, step: InflateStep, bytes: Seq<u8>)
    -> InflateRun {
    InflateRun {
        fed: run.fed.push((run.pending, room)),
        pending: run.pending.subrange(step.consumed as int, run.pending.len() as int),
        out: run.out + bytes,
        ..run
    }
}

/// The end of an inflating read that found the end of the stream: the
/// CRC-32 of what was produced must be that of the entry, zero or not.
pub open spec fn checked_output(crc32: u32, out: Seq<u8>) -> (Result<usize, ZipError>, Seq<u8>) {
    if crc32_of(out) != crc32 {
        (Err(ZipError::CrcMismatch), out)
    } else {
        (Ok(out.len() as usize), out)
    }
}

/// How an inflating read into a buffer of `buf_len` bytes ends, from where
/// it stands: its result and the bytes it has produced.
///
/// Each round takes compressed bytes where none is pending, refuses a full
/// buffer while compressed bytes are left, and runs one step of the
/// decompressor with the room that the buffer has left. The step decides by
/// [`verdict_of`]: the end of the stream with compressed bytes left over is
/// a failure. A step that oversteps its input or its room, which the
/// decompressor never takes, counts as a failure too.
pub open spec fn inflate_into(
    data: Seq<u8>,
    crc32: u32,
    buf_len: nat,
    chunk: nat,
    run: InflateRun,
) -> (Result<usize, ZipError>, Seq<u8>)
    decreases run.remaining + run.pending.len() + (buf_len - run.out.len()),
{
    match refilled(data, run, chunk) {
        Err(e) => (Err(e), run.out),
        Ok(taken) => if taken.out.len() >= buf_len && (taken.remaining > 0 || taken.pending.len()
            > 0) {
            (Err(ZipError::BufferTooSmall), taken.out)
        } else {
            let room = buf_len - taken.out.len();
            let (step, bytes) = inflate_step_of(taken.fed, taken.pending, room);
            if !step_in_bounds(step, bytes, taken.pending.len() as int, room) {
                (Err(ZipError::DecompressError), taken.out)
            } else {
                let next = after_step(taken, room, step, bytes);
                match verdict_of(step, (taken.remaining + next.pending.len()) as int) {
                    InflateVerdict::Failed => (Err(ZipError::DecompressError), next.out),
                    InflateVerdict::Finished => checked_output(crc32, next.out),
                    InflateVerdict::Continue => inflate_into(data, crc32, buf_len, chunk, next),
                }
            }
        },
    }
}

/// How an inflating read that appends to a vector ends, from where it
/// stands: its result and the bytes it has produced. Each step has `room`
/// bytes for output. A result longer than `usize::MAX` is refused as too
/// large.
pub open spec fn inflate_onto(data: Seq<u8>, crc32: u32, chunk: nat, room: nat, run: InflateRun)
    -> (Result<usize, ZipError>, Seq<u8>)
    decreases run.remaining + run.pending.len() + (usize::MAX - run.out.len()),
{
    match refilled(data, run, chunk) {
        Err(e) => (Err(e), run.out),
        Ok(taken) => {
            let (step, bytes) = inflate_step_of(taken.fed, taken.pending, room as int);
            if !step_in_bounds(step, bytes, taken.pending.len() as int, room as int) {
                (Err(ZipError::DecompressError), taken.out)
            } else {
                let next = after_step(taken, room as int, step, bytes);
                if next.out.len() > usize::MAX {
                    (Err(ZipError::FileTooLarge), next.out)
                } else {
                    match verdict_of(step, (taken.remaining + next.pending.len()) as int) {
                        InflateVerdict::Failed => (Err(ZipError::DecompressError), next.out),
                        InflateVerdict::Finished => checked_output(crc32, next.out),
                        InflateVerdict::Continue => inflate_onto(data, crc32, chunk, room, next),
                    }
                }
            }
        },
    }
}

/// What inflating an entry, whose compressed data begins at `start`, into
/// a buffer of `buf_len` bytes gives, with a scratch buffer of `chunk`
/// bytes: the result and the bytes produced. An entry whose compressed size
/// does not fit in `usize` is refused as too large.
pub open spec fn inflated_bytes(
    data: Seq<u8>,
    entry: CdEntryView,
    start: int,
    buf_len: nat,
    chunk: nat,
) -> (Result<usize, ZipError>, Seq<u8>) {
    if entry.compressed_size > usize::MAX {
        (Err(ZipError::FileTooLarge), Seq::<u8>::empty())
    } else {
        inflate_into(data, entry.crc32, buf_len, chunk, inflate_start(entry, start))
    }
}

/// What inflating an entry, whose compressed data begins at `start`, onto
/// a vector gives, with scratch buffers of `input_len` and `output_len`
/// bytes: the result and the bytes produced.
pub open spec fn streamed_bytes(
    data: Seq<u8>,
    entry: CdEntryView,
    start: int,
    input_len: nat,
    output_len: nat,
) -> (Result<usize, ZipError>, Seq<u8>) {
    if entry.compressed_size > usize::MAX {
        (Err(ZipError::FileTooLarge), Seq::<u8>::empty())
    } else {
        inflate_onto(data, entry.crc32, input_len, output_len, inflate_start(entry, start))
    }
}

/// The result of inflating an entry into a buffer that holds `before`, and
/// what the buffer then holds: the bytes produced at its front and the rest
/// as before.
pub open spec fn inflated_read(
    data: Seq<u8>,
    entry: CdEntryView,
    start: int,
    before: Seq<u8>,
    chunk: int,
) -> (Result<usize, ZipError>, Seq<u8>) {
    let (r, out) = inflated_bytes(data, entry, start, before.len(), chunk as nat);
    (r, out + before.subrange(out.len() as int, before.len() as int))
}

/// The result of inflating an entry onto a vector that holds `before`, and
/// what the vector then holds: the bytes produced behind what it held.
pub open spec fn inflated_stream(
    data: Seq<u8>,
    entry: CdEntryView,
    start: int,
    before: Seq<u8>,
    input_len: int,
    output_len: int,
) -> (Result<usize, ZipError>, Seq<u8>) {
    let (r, out) = streamed_bytes(data, entry, start, input_len as nat, output_len as nat);
    (r, before + out)
}

/// An inflating read into a buffer that succeeds has produced no more than
/// the buffer holds, returns the count of what it produced, and what it
/// produced has the CRC-32 of the entry.
pub proof fn lemma_inflate_into_checks(
    data: Seq<u8>,
    crc32: u32,
    buf_len: nat,
    chunk: nat,
    run: InflateRun,
)
    requires
        run.out.len() <= buf_len <= usize::MAX,
    ensures
        inflate_into(data, crc32, buf_len, chunk, run).1.len() <= buf_len,
        inflate_into(data, crc32, buf_len, chunk, run).0 matches Ok(n) ==> {
            &&& n == inflate_into(data, crc32, buf_len, chunk, run).1.len()
            &&& crc32_of(inflate_into(data, crc32, buf_len, chunk, run).1) == crc32
        },
    decreases run.remaining + run.pending.len() + (buf_len - run.out.len()),
{
    match refilled(data, run, chunk) {
        Err(_) => {},
        Ok(taken) => {
            if !(taken.out.len() >= buf_len && (taken.remaining > 0 || taken.pending.len() > 0)) {
                let room = buf_len - taken.out.len();
                let (step, bytes) = inflate_step_of(taken.fed, taken.pending, room);
                if step_in_bounds(step, bytes, taken.pending.len() as int, room) {
                    let next = after_step(taken, room, step, bytes);
                    if verdict_of(step, (taken.remaining + next.pending.len()) as int)
                        == InflateVerdict::Continue {
                        lemma_inflate_into_checks(data, crc32, buf_len, chunk, next);
                    }
                }
            }
        },
    }
}

/// An inflating read onto a vector that succeeds returns the count of what
/// it produced, and what it produced has the CRC-32 of the entry.
pub proof fn lemma_inflate_onto_checks(
    data: Seq<u8>,
    crc32: u32,
    chunk: nat,
    room: nat,
    run: InflateRun,
)
    requires
        run.out.len() <= usize::MAX,
    ensures
        inflate_onto(data, crc32, chunk, room, run).0 matches Ok(n) ==> {
            &&& n == inflate_onto(data, crc32, chunk, room, run).1.len()
            &&& crc32_of(inflate_onto(data, crc32, chunk, room, run).1) == crc32
        },
    decreases run.remaining + run.pending.len() + (usize::MAX - run.out.len()),
{
    match refilled(data, run, chunk) {
        Err(_) => {},
        Ok(taken) => {
            let (step, bytes) = inflate_step_of(taken.fed, taken.pending, room as int);
            if step_in_bounds(step, bytes, taken.pending.len() as int, room as int) {
                let next = after_step(taken, room as int, step, bytes);
                if next.out.len() <= usize::MAX && verdict_of(
                    step,
                    (taken.remaining + next.pending.len()) as int,
                ) == InflateVerdict::Continue {
                    lemma_inflate_onto_checks(data, crc32, chunk, room, next);
                }
            }
        },
    }
}

/// Compressed bytes left over at the end of the stream fail the read: where
/// the next step finds the end of the stream while bytes of the entry are
/// neither taken nor consumed, the read ends in `DecompressError`.
pub proof fn lemma_residual_bytes_fail(
    data: Seq<u8>,
    crc32: u32,
    buf_len: nat,
    chunk: nat,
    run: InflateRun,
)
    requires
        refilled(data, run, chunk) matches Ok(taken) && taken.out.len() < buf_len && ({
            let room = buf_len - taken.out.len();
            let (step, bytes) = inflate_step_of(taken.fed, taken.pending, room);
            &&& step_in_bounds(step, bytes, taken.pending.len() as int, room)
            &&& step.status == InflateStatus::StreamEnd
            &&& taken.remaining + taken.pending.len() - step.consumed > 0
        }),
    ensures
        inflate_into(data, crc32, buf_len, chunk, run).0 == Err::<usize, ZipError>(
            ZipError::DecompressError,
        ),
{
}

/// What a stored read that appends to a vector, in chunks of `chunk` bytes,
/// leaves behind when it fails: the vector holds what it held, followed by
/// the part of the entry's bytes that was copied before the failure.
///
/// Nothing is copied of an entry that is too large, and all of one whose
/// CRC-32 does not match. Where the data ends before the entry does, the
/// whole chunks that were there are copied.
pub open spec fn stored_partly_written(
    e: ZipError,
    before: Seq<u8>,
    after: Seq<u8>,
    data: Seq<u8>,
    entry: CdEntryView,
    start: int,
    chunk: int,
) -> bool {
    let copied = after.len() - before.len();
    &&& 0 <= copied <= entry.compressed_size
    &&& after == before + span(data, start, copied)
    &&& copied > 0 ==> start + copied <= data.len()
    &&& e == ZipError::FileTooLarge ==> copied == 0
    &&& e == ZipError::CrcMismatch ==> copied == entry.compressed_size
    &&& e == ZipError::IoError ==> data.len() - start - copied < chunk && copied % chunk == 0
}

/// Finds where the data of an entry begins, from its local file header.
pub fn calc_data_offset(data: &[u8], entry: &CdEntry) -> (r: Result<u64, ZipError>)
    ensures
        match data_offset_at(data@, entry.local_header_offset as int) {
            Ok(start) => r == Ok::<u64, ZipError>(start as u64) && 0 <= start <= u64::MAX,
            Err(e) => r == Err::<u64, ZipError>(e),
        },
{
    let offset: u64 = entry.local_header_offset;
    if !available(data, offset, LOCAL_HEADER_FIXED_SIZE) {
        return Err(ZipError::IoError);
    }
    let at: usize = offset as usize;
    if read_u32_le(data, at) != SIG_LOCAL_FILE_HEADER {
        return Err(ZipError::InvalidFormat);
    }
    let name_len: u64 = read_u16_le(data, at + 26) as u64;
    let extra_len: u64 = read_u16_le(data, at + 28) as u64;
    skip(offset + 30, name_len + extra_len)
}

/// Copies `n` bytes of `src`, from position `from`, to the front of `dst`.
pub(crate) fn copy_bytes(dst: &mut [u8], src: &[u8], from: usize, n: usize)
    requires
        from + n <= src.len(),
        n <= old(dst).len(),
    ensures
        final(dst)@ == src@.subrange(from as int, from + n) + old(dst)@.subrange(
            n as int,
            old(dst)@.len() as int,
        ),
{
    let mut i: usize = 0;
    while i < n
        invariant
            i <= n,
            from + n <= src.len(),
            n <= dst.len(),
            dst@.len() == old(dst)@.len(),
            dst@ == src@.subrange(from as int, from + i) + old(dst)@.subrange(
                i as int,
                old(dst)@.len() as int,
            ),
        decreases n - i,
    {
        dst[i] = src[from + i];
        i += 1;
    }
}

/// Reads a stored entry, whose data begins at `start`, into the front of
/// `buf`.
pub(crate) fn read_stored(data: &[u8], entry: &CdEntry, start: u64, buf: &mut [u8]) -> (r: Result<
    usize,
    ZipError,
>)
    ensures
        final(buf)@.len() == old(buf)@.len(),
        match buffered_stored(data@, entry@, start as int, old(buf)@.len() as int) {
            Ok(bytes) => r == Ok::<usize, ZipError>(bytes.len() as usize) && final(buf)@ == bytes
                + old(buf)@.subrange(bytes.len() as int, old(buf)@.len() as int),
            Err(e) => r == Err::<usize, ZipError>(e) && final(buf)@ == (if e
                == ZipError::CrcMismatch {
                span(data@, start as int, entry.compressed_size as int) + old(buf)@.subrange(
                    entry.compressed_size as int,
                    old(buf)@.len() as int,
                )
            } else {
                old(buf)@
            }),
        },
{
    if entry.compressed_size > usize::MAX as u64 {
        return Err(ZipError::FileTooLarge);
    }
    let size: usize = entry.compressed_size as usize;
    if size > buf.len() {
        return Err(ZipError::BufferTooSmall);
    }
    if size > 0 {
        if !available(data, start, size) {
            return Err(ZipError::IoError);
        }
        copy_bytes(buf, data, start as usize, size);
    }
    assert(buf@ == span(data@, start as int, size as int) + old(buf)@.subrange(
        size as int,
        old(buf)@.len() as int,
    ));
    assert(buf@.subrange(0, size as int) == span(data@, start as int, size as int));
    if entry.crc32 != 0 {
        let calc_crc: u32 = crc32(slice_subrange(buf, 0, size));
        if calc_crc != entry.crc32 {
            return Err(ZipError::CrcMismatch);
        }
    }
    Ok(size)
}

/// Appends a stored entry, whose data begins at `start`, to `writer`, in
/// chunks of the size of `input_buf`.
pub(crate) fn stream_stored(
    data: &[u8],
    entry: &CdEntry,
    start: u64,
    writer: &mut Vec<u8>,
    input_buf: &mut [u8],
) -> (r: Result<usize, ZipError>)
    requires
        old(input_buf).len() > 0,
    ensures
        final(input_buf)@.len() == old(input_buf)@.len(),
        match stored_payload(data@, entry@, start as int) {
            Ok(bytes) => r == Ok::<usize, ZipError>(bytes.len() as usize) && final(writer)@
                == old(writer)@ + bytes,
            Err(e) => r == Err::<usize, ZipError>(e) && stored_partly_written(
                e,
                old(writer)@,
                final(writer)@,
                data@,
                entry@,
                start as int,
                old(input_buf)@.len() as int,
            ),
        },
{
    if entry.compressed_size > usize::MAX as u64 {
        assert(writer@ == old(writer)@ + span(data@, start as int, 0));
        return Err(ZipError::FileTooLarge);
    }
    let size: usize = entry.compressed_size as usize;
    let mut remaining: usize = size;
    let mut written: usize = 0;
    let mut pos: u64 = start;
    let mut hasher = hasher_new();
    let ghost mut chunks: nat = 0;
    assert(writer@ == old(writer)@ + span(data@, start as int, 0));
    while remaining > 0
        invariant
            input_buf@.len() == old(input_buf)@.len(),
            input_buf.len() > 0,
            size == entry.compressed_size,
            written + remaining == size,
            pos == start + written,
            written > 0 ==> pos <= data.len(),
            remaining > 0 ==> written == chunks * input_buf.len(),
            writer@ == old(writer)@ + span(data@, start as int, written as int),
            hasher_value(hasher) == crc32_of(span(data@, start as int, written as int)),
        decreases remaining,
    {
        let take: usize = if remaining < input_buf.len() {
            remaining
        } else {
            input_buf.len()
        };
        if !available(data, pos, take) {
            proof {
                vstd::arithmetic::div_mod::lemma_mod_multiples_basic(
                    chunks as int,
                    input_buf.len() as int,
                );
            }
            return Err(ZipError::IoError);
        }
        proof {
            assert((chunks + 1) * input_buf.len() == chunks * input_buf.len() + input_buf.len())
                by (nonlinear_arith);
            chunks = chunks + 1;
        }
        copy_bytes(input_buf, data, pos as usize, take);
        let chunk = slice_subrange(input_buf, 0, take);
        assert(chunk@ == data@.subrange(pos as int, pos + take));
        let ghost seen = span(data@, start as int, written as int);
        vec_extend(writer, chunk);
        hasher_update(&mut hasher, chunk);
        assert(seen + chunk@ == span(data@, start as int, written + take));
        written += take;
        remaining -= take;
        pos += take as u64;
    }
    if entry.crc32 != 0 && hasher_finalize(hasher) != entry.crc32 {
        return Err(ZipError::CrcMismatch);
    }
    Ok(written)
}

/// Appends the bytes of a slice to a vector.
pub(crate) fn vec_extend(v: &mut Vec<u8>, bytes: &[u8])
    ensures
        final(v)@ == old(v)@ + bytes@,
{
    let mut i: usize = 0;
    while i < bytes.len()
        invariant
            i <= bytes.len(),
            v@ == old(v)@ + bytes@.subrange(0, i as int),
        decreases bytes.len() - i,
    {
        v.push(bytes[i]);
        i += 1;
    }
    assert(bytes@.subrange(0, bytes@.len() as int) == bytes@);
}

/// Runs one decompression step that writes behind the first `written` bytes
/// of `buf`.
fn inflate_behind(
    state: &mut miniz_oxide::inflate::stream::InflateState,
    input: &[u8],
    buf: &mut [u8],
    written: usize,
) -> (step: InflateStep)
    requires
        written <= old(buf).len(),
    ensures
        step.consumed <= input.len(),
        written + step.produced <= old(buf).len(),
        final(buf)@.len() == old(buf)@.len(),
        final(buf)@.subrange(0, written as int) == old(buf)@.subrange(0, written as int),
        final(buf)@.subrange(written + step.produced, old(buf)@.len() as int) == old(
            buf,
        )@.subrange(written + step.produced, old(buf)@.len() as int),
        (step, final(buf)@.subrange(written as int, written + step.produced)) == inflate_step_of(
            inflate_fed(*old(state)),
            input@,
            old(buf)@.len() - written,
        ),
        inflate_fed(*final(state)) == inflate_fed(*old(state)).push(
            (input@, old(buf)@.len() - written),
        ),
{
    let ghost before = buf@;
    let (head, tail) = buf.split_at_mut(written);
    let ghost tail_before = tail@;
    let step: InflateStep = inflate_chunk(state, input, tail);
    proof {
        let tail_after = tail@;
        let n = before.len() as int;
        let w = written as int;
        let p = step.produced as int;
        assert(buf@ == head@ + tail_after);
        assert(head@ == before.subrange(0, w));
        assert(buf@.subrange(0, w) =~= before.subrange(0, w));
        let after = buf@;
        let rest_after = after.subrange(w + p, n);
        let rest_before = before.subrange(w + p, n);
        assert forall|i: int| 0 <= i < rest_after.len() implies #[trigger] rest_after[i]
            == rest_before[i] by {
            assert(after[w + p + i] == tail_after[p + i]);
            assert(tail_after.subrange(p, n - w)[i] == tail_before.subrange(p, n - w)[i]);
            assert(tail_before[p + i] == before[w + p + i]);
        }
        assert(buf@.subrange(w + p, n) =~= before.subrange(w + p, n));
        assert(after.subrange(w, w + p) =~= tail_after.subrange(0, p));
        assert(tail_before.len() == n - w);
    }
    step
}

/// Inflates an entry, whose compressed data begins at `start`, into the
/// front of `buf`. The compressed data is fed to the decompressor in chunks
/// of the size of `input_buf`.
pub(crate) fn inflate_to_buffer(
    data: &[u8],
    entry: &CdEntry,
    start: u64,
    buf: &mut [u8],
    input_buf: &mut [u8],
) -> (r: Result<usize, ZipError>)
    requires
        old(input_buf).len() > 0,
    ensures
        final(input_buf)@.len() == old(input_buf)@.len(),
        final(buf)@.len() == old(buf)@.len(),
        (r, final(buf)@) == inflated_read(
            data@,
            entry@,
            start as int,
            old(buf)@,
            old(input_buf)@.len() as int,
        ),
{
    if entry.compressed_size > usize::MAX as u64 {
        proof {
            assert(Seq::<u8>::empty() + buf@.subrange(0, buf@.len() as int) =~= buf@);
        }
        return Err(ZipError::FileTooLarge);
    }
    let size: usize = entry.compressed_size as usize;
    let mut state = new_inflate_state();
    let mut compressed_remaining: usize = size;
    let mut pos: u64 = start;
    let mut pending_from: usize = 0;
    let mut pending_to: usize = 0;
    let mut written: usize = 0;
    let ghost whole = inflate_into(
        data@,
        entry.crc32,
        old(buf)@.len(),
        old(input_buf)@.len(),
        inflate_start(entry@, start as int),
    );
    proof {
        assert(buf@.subrange(0, 0) =~= Seq::<u8>::empty());
        assert(input_buf@.subrange(0, 0) =~= Seq::<u8>::empty());
    }
    loop
        invariant
            input_buf@.len() == old(input_buf)@.len(),
            input_buf.len() > 0,
            buf@.len() == old(buf)@.len(),
            size == entry.compressed_size,
            pending_from <= pending_to <= input_buf.len(),
            compressed_remaining + (pending_to - pending_from) <= size,
            written <= buf.len(),
            buf@.subrange(written as int, buf@.len() as int) == old(buf)@.subrange(
                written as int,
                buf@.len() as int,
            ),
            entry.compressed_size <= usize::MAX,
            whole == inflate_into(
                data@,
                entry.crc32,
                old(buf)@.len(),
                old(input_buf)@.len(),
                inflate_start(entry@, start as int),
            ),
            whole == inflate_into(
                data@,
                entry.crc32,
                old(buf)@.len(),
                old(input_buf)@.len(),
                (InflateRun {
                    fed: inflate_fed(state),
                    remaining: compressed_remaining as nat,
                    pos: pos as nat,
                    pending: input_buf@.subrange(pending_from as int, pending_to as int),
                    out: buf@.subrange(0, written as int),
                }),
            ),
        decreases compressed_remaining + (pending_to - pending_from) + (buf.len() - written),
    {
        let ghost run = InflateRun {
            fed: inflate_fed(state),
            remaining: compressed_remaining as nat,
            pos: pos as nat,
            pending: input_buf@.subrange(pending_from as int, pending_to as int),
            out: buf@.subrange(0, written as int),
        };
        proof {
            assert(buf@ =~= buf@.subrange(0, written as int) + buf@.subrange(
                written as int,
                buf@.len() as int,
            ));
        }
        if pending_from == pending_to && compressed_remaining > 0 {
            let take: usize = if compressed_remaining < input_buf.len() {
                compressed_remaining
            } else {
                input_buf.len()
            };
            if !available(data, pos, take) {
                return Err(ZipError::IoError);
            }
            copy_bytes(input_buf, data, pos as usize, take);
            pending_from = 0;
            pending_to = take;
            compressed_remaining -= take;
            proof {
                assert(input_buf@.subrange(0, take as int) =~= data@.subrange(
                    pos as int,
                    pos + take,
                ));
            }
            pos += take as u64;
        }
        let ghost taken = InflateRun {
            fed: inflate_fed(state),
            remaining: compressed_remaining as nat,
            pos: pos as nat,
            pending: input_buf@.subrange(pending_from as int, pending_to as int),
            out: buf@.subrange(0, written as int),
        };
        assert(refilled(data@, run, old(input_buf)@.len()) == Ok::<InflateRun, ZipError>(taken));
        if written >= buf.len() && (compressed_remaining > 0 || pending_from != pending_to) {
            return Err(ZipError::BufferTooSmall);
        }
        let ghost before = buf@;
        let ghost room = buf.len() - written;
        let step: InflateStep = inflate_behind(
            &mut state,
            slice_subrange(input_buf, pending_from, pending_to),
            buf,
            written,
        );
        let ghost bytes = buf@.subrange(written as int, written + step.produced);
        proof {
            let n = before.len() as int;
            let w = written as int;
            let p = step.produced as int;
            assert(before.subrange(w + p, n) =~= before.subrange(w, n).subrange(p, n - w));
            assert(old(buf)@.subrange(w + p, n) =~= old(buf)@.subrange(w, n).subrange(
                p,
                n - w,
            ));
            assert(buf@.subrange(0, w + p) =~= taken.out + bytes);
            assert(buf@ =~= buf@.subrange(0, w + p) + buf@.subrange(w + p, n));
            assert(input_buf@.subrange(pending_from + step.consumed, pending_to as int)
                =~= taken.pending.subrange(step.consumed as int, taken.pending.len() as int));
            assert(step_in_bounds(step, bytes, taken.pending.len() as int, room));
        }
        pending_from += step.consumed;
        written += step.produced;
        let ghost next = after_step(taken, room, step, bytes);
        proof {
            assert(next == (InflateRun {
                fed: inflate_fed(state),
                remaining: compressed_remaining as nat,
                pos: pos as nat,
                pending: input_buf@.subrange(pending_from as int, pending_to as int),
                out: buf@.subrange(0, written as int),
            }));
        }
        match judge_step(step, compressed_remaining + (pending_to - pending_from)) {
            InflateVerdict::Failed => {
                return Err(ZipError::DecompressError);
            },
            InflateVerdict::Finished => {
                let calc_crc: u32 = crc32(slice_subrange(buf, 0, written));
                if calc_crc != entry.crc32 {
                    return Err(ZipError::CrcMismatch);
                }
                return Ok(written);
            },
            InflateVerdict::Continue => {},
        }
    }
}

/// Inflates an entry, whose compressed data begins at `start`, and appends
/// the result to `writer`. The compressed data is fed to the decompressor
/// in chunks of the size of `input_buf`, and the result is appended in
/// chunks of at most the size of `output_buf`.
pub(crate) fn stream_inflated(
    data: &[u8],
    entry: &CdEntry,
    start: u64,
    writer: &mut Vec<u8>,
    input_buf: &mut [u8],
    output_buf: &mut [u8],
) -> (r: Result<usize, ZipError>)
    requires
        old(input_buf).len() > 0,
        old(output_buf).len() > 0,
    ensures
        final(input_buf)@.len() == old(input_buf)@.len(),
        final(output_buf)@.len() == old(output_buf)@.len(),
        (r, final(writer)@) == inflated_stream(
            data@,
            entry@,
            start as int,
            old(writer)@,
            old(input_buf)@.len() as int,
            old(output_buf)@.len() as int,
        ),
{
    if entry.compressed_size > usize::MAX as u64 {
        proof {
            assert(writer@ + Seq::<u8>::empty() =~= writer@);
        }
        return Err(ZipError::FileTooLarge);
    }
    let size: usize = entry.compressed_size as usize;
    let mut state = new_inflate_state();
    let mut compressed_remaining: usize = size;
    let mut pos: u64 = start;
    let mut pending_from: usize = 0;
    let mut pending_to: usize = 0;
    let mut written: usize = 0;
    let mut hasher = hasher_new();
    let ghost mut out: Seq<u8> = Seq::<u8>::empty();
    let ghost whole = inflate_onto(
        data@,
        entry.crc32,
        old(input_buf)@.len(),
        old(output_buf)@.len(),
        inflate_start(entry@, start as int),
    );
    proof {
        assert(input_buf@.subrange(0, 0) =~= Seq::<u8>::empty());
        assert(old(writer)@ + out =~= old(writer)@);
    }
    loop
        invariant
            input_buf@.len() == old(input_buf)@.len(),
            input_buf.len() > 0,
            output_buf@.len() == old(output_buf)@.len(),
            size == entry.compressed_size,
            entry.compressed_size <= usize::MAX,
            pending_from <= pending_to <= input_buf.len(),
            compressed_remaining + (pending_to - pending_from) <= size,
            out.len() == written,
            writer@ == old(writer)@ + out,
            hasher_value(hasher) == crc32_of(out),
            whole == inflate_onto(
                data@,
                entry.crc32,
                old(input_buf)@.len(),
                old(output_buf)@.len(),
                inflate_start(entry@, start as int),
            ),
            whole == inflate_onto(
                data@,
                entry.crc32,
                old(input_buf)@.len(),
                old(output_buf)@.len(),
                (InflateRun {
                    fed: inflate_fed(state),
                    remaining: compressed_remaining as nat,
                    pos: pos as nat,
                    pending: input_buf@.subrange(pending_from as int, pending_to as int),
                    out,
                }),
            ),
        decreases compressed_remaining + (pending_to - pending_from) + (usize::MAX - written),
    {
        let ghost run = InflateRun {
            fed: inflate_fed(state),
            remaining: compressed_remaining as nat,
            pos: pos as nat,
            pending: input_buf@.subrange(pending_from as int, pending_to as int),
            out,
        };
        if pending_from == pending_to && compressed_remaining > 0 {
            let take: usize = if compressed_remaining < input_buf.len() {
                compressed_remaining
            } else {
                input_buf.len()
            };
            if !available(data, pos, take) {
                return Err(ZipError::IoError);
            }
            copy_bytes(input_buf, data, pos as usize, take);
            pending_from = 0;
            pending_to = take;
            compressed_remaining -= take;
            proof {
                assert(input_buf@.subrange(0, take as int) =~= data@.subrange(
                    pos as int,
                    pos + take,
                ));
            }
            pos += take as u64;
        }
        let ghost taken = InflateRun {
            fed: inflate_fed(state),
            remaining: compressed_remaining as nat,
            pos: pos as nat,
            pending: input_buf@.subrange(pending_from as int, pending_to as int),
            out,
        };
        assert(refilled(data@, run, old(input_buf)@.len()) == Ok::<InflateRun, ZipError>(taken));
        let ghost room = output_buf@.len() as int;
        let step: InflateStep = inflate_chunk(
            &mut state,
            slice_subrange(input_buf, pending_from, pending_to),
            output_buf,
        );
        let ghost bytes = output_buf@.subrange(0, step.produced as int);
        proof {
            assert(input_buf@.subrange(pending_from + step.consumed, pending_to as int)
                =~= taken.pending.subrange(step.consumed as int, taken.pending.len() as int));
            assert(step_in_bounds(step, bytes, taken.pending.len() as int, room));
        }
        pending_from += step.consumed;
        let ghost next = after_step(taken, room, step, bytes);
        if step.produced > 0 {
            let chunk = slice_subrange(output_buf, 0, step.produced);
            vec_extend(writer, chunk);
            hasher_update(&mut hasher, chunk);
        }
        proof {
            assert(old(writer)@ + out + bytes =~= old(writer)@ + (out + bytes));
            if step.produced == 0 {
                assert(out + bytes =~= out);
            }
            out = out + bytes;
        }
        written =
        match written.checked_add(step.produced) {
            Some(n) => n,
            None => {
                return Err(ZipError::FileTooLarge);
            },
        };
        proof {
            assert(next == (InflateRun {
                fed: inflate_fed(state),
                remaining: compressed_remaining as nat,
                pos: pos as nat,
                pending: input_buf@.subrange(pending_from as int, pending_to as int),
                out,
            }));
        }
        match judge_step(step, compressed_remaining + (pending_to - pending_from)) {
            InflateVerdict::Failed => {
                return Err(ZipError::DecompressError);
            },
            InflateVerdict::Finished => {
                if hasher_finalize(hasher) != entry.crc32 {
                    return Err(ZipError::CrcMismatch);
                }
                return Ok(written);
            },
            InflateVerdict::Continue => {},
        }
    }
}

} // verus!
