//! Reading an entry chunk by chunk, for sinks that take the bytes as they
//! come: no buffer ever holds the whole entry.

use crate::central::available;
use crate::checksum::{crc32_of, hasher_current, hasher_new, hasher_update, hasher_value};
use crate::error::ZipError;
use crate::inflate::{
    inflate_chunk, inflate_fed, inflate_step_of, judge_step, new_inflate_state, verdict_of,
    InflateStep, InflateVerdict,
};
use crate::plan::exceeds_read_limit;
use crate::read::{
    after_step, calc_data_offset, copy_bytes, data_offset_at, inflate_onto, inflate_start,
    refilled, span, step_in_bounds, stored_payload, InflateRun,
};
use crate::zip::{CdEntry, CdEntryView, StreamingZip, ZipLimits, METHOD_DEFLATED, METHOD_STORED};
use vstd::prelude::*;
use vstd::slice::slice_subrange;

verus! {

/// What one round of a chunked read gives: the bytes it delivers, and then
/// an error, the end of the entry (`None`), or where the read stands next.
pub type Round = (Seq<u8>, Result<Option<InflateRun>, ZipError>);

/// One round of inflating onto a sink, with `room` bytes for output: take
/// compressed bytes where none is pending, run one step of the
/// decompressor, and decide by [`verdict_of`]. The bytes of a step are
/// delivered even where the step then fails the read.
pub open spec fn onto_round(data: Seq<u8>, crc32: u32, chunk: nat, room: nat, run: InflateRun)
    -> Round {
    match refilled(data, run, chunk) {
        Err(e) => (Seq::<u8>::empty(), Err(e)),
        Ok(taken) => {
            let (step, bytes) = inflate_step_of(taken.fed, taken.pending, room as int);
            if !step_in_bounds(step, bytes, taken.pending.len() as int, room as int) {
                (Seq::<u8>::empty(), Err(ZipError::DecompressError))
            } else {
                let next = after_step(taken, room as int, step, bytes);
                if next.out.len() > usize::MAX {
                    (bytes, Err(ZipError::FileTooLarge))
                } else {
                    match verdict_of(step, (taken.remaining + next.pending.len()) as int) {
                        InflateVerdict::Failed => (bytes, Err(ZipError::DecompressError)),
                        InflateVerdict::Finished => if crc32_of(next.out) != crc32 {
                            (bytes, Err(ZipError::CrcMismatch))
                        } else {
                            (bytes, Ok(None))
                        },
                        InflateVerdict::Continue => (bytes, Ok(Some(next))),
                    }
                }
            }
        },
    }
}

/// One round of copying a stored entry to a sink, with `room` bytes for
/// output: the next bytes of the entry, as many as there is room for. The
/// round that delivers the last byte checks a nonzero CRC-32.
pub open spec fn stored_round(data: Seq<u8>, crc32: u32, room: nat, run: InflateRun) -> Round {
    let take = if run.remaining < room {
        run.remaining
    } else {
        room
    };
    if take > 0 && run.pos + take > data.len() {
        (Seq::<u8>::empty(), Err(ZipError::IoError))
    } else {
        let bytes = span(data, run.pos as int, take as int);
        let next = InflateRun {
            remaining: (run.remaining - take) as nat,
            pos: run.pos + take,
            out: run.out + bytes,
            ..run
        };
        if next.remaining > 0 {
            (bytes, Ok(Some(next)))
        } else if crc32 != 0 && crc32_of(next.out) != crc32 {
            (bytes, Err(ZipError::CrcMismatch))
        } else {
            (bytes, Ok(None))
        }
    }
}

/// How a read ends that runs rounds until one ends it: the result and all
/// the bytes delivered.
pub open spec fn rounds_to_end(first: Round, rest: (Result<usize, ZipError>, Seq<u8>), out: Seq<u8>)
    -> (Result<usize, ZipError>, Seq<u8>) {
    match first.1 {
        Err(e) => (Err(e), out + first.0),
        Ok(None) => (Ok((out + first.0).len() as usize), out + first.0),
        Ok(Some(_)) => rest,
    }
}

/// Inflating onto a vector is running rounds until one ends the read: the
/// chunks that the rounds deliver, one after the other, are the bytes that
/// the read appends, and the round that ends the read gives its result.
pub proof fn lemma_inflate_onto_by_rounds(
    data: Seq<u8>,
    crc32: u32,
    chunk: nat,
    room: nat,
    run: InflateRun,
)
    ensures
        inflate_onto(data, crc32, chunk, room, run) == rounds_to_end(
            onto_round(data, crc32, chunk, room, run),
            match onto_round(data, crc32, chunk, room, run).1 {
                Ok(Some(next)) => inflate_onto(data, crc32, chunk, room, next),
                _ => (Err(ZipError::DecompressError), Seq::<u8>::empty()),
            },
            run.out,
        ),
{
    match refilled(data, run, chunk) {
        Err(_) => {
            assert(run.out + Seq::<u8>::empty() =~= run.out);
        },
        Ok(taken) => {
            assert(taken.out == run.out);
            assert(run.out + Seq::<u8>::empty() =~= run.out);
        },
    }
}

/// How copying a stored entry to a sink ends, from where it stands, when
/// rounds with `room` bytes for output run until one ends the read: the
/// result and all the bytes delivered.
pub open spec fn stored_onto(data: Seq<u8>, crc32: u32, room: nat, run: InflateRun) -> (
    Result<usize, ZipError>,
    Seq<u8>,
)
    decreases run.remaining,
{
    if room == 0 {
        (Err(ZipError::BufferTooSmall), run.out)
    } else {
        let round = stored_round(data, crc32, room, run);
        match round.1 {
            Err(e) => (Err(e), run.out + round.0),
            Ok(None) => (Ok((run.out + round.0).len() as usize), run.out + round.0),
            Ok(Some(next)) => stored_onto(data, crc32, room, next),
        }
    }
}

/// The chunks of a stored entry, one after the other, are the bytes of the
/// entry: rounds that run to the end deliver exactly what a read of the
/// whole entry delivers, and end in an error exactly where that read does.
pub proof fn lemma_stored_rounds_deliver_the_payload(
    data: Seq<u8>,
    entry: CdEntryView,
    start: nat,
    room: nat,
    done: nat,
)
    requires
        room > 0,
        entry.compressed_size <= usize::MAX,
        done <= entry.compressed_size,
        done > 0 ==> start + done <= data.len(),
    ensures
        match stored_payload(data, entry, start as int) {
            Ok(bytes) => stored_onto(
                data,
                entry.crc32,
                room,
                (InflateRun {
                    remaining: (entry.compressed_size - done) as nat,
                    pos: start + done,
                    out: span(data, start as int, done as int),
                    ..inflate_start(entry, start as int)
                }),
            ) == (Ok::<usize, ZipError>(bytes.len() as usize), bytes),
            Err(e) => stored_onto(
                data,
                entry.crc32,
                room,
                (InflateRun {
                    remaining: (entry.compressed_size - done) as nat,
                    pos: start + done,
                    out: span(data, start as int, done as int),
                    ..inflate_start(entry, start as int)
                }),
            ).0 == Err::<usize, ZipError>(e),
        },
    decreases entry.compressed_size - done,
{
    let run = InflateRun {
        remaining: (entry.compressed_size - done) as nat,
        pos: start + done,
        out: span(data, start as int, done as int),
        ..inflate_start(entry, start as int)
    };
    let take = if run.remaining < room {
        run.remaining
    } else {
        room
    };
    if !(take > 0 && run.pos + take > data.len()) {
        let bytes = span(data, run.pos as int, take as int);
        assert(run.out + bytes =~= span(data, start as int, (done + take) as int));
        if run.remaining - take > 0 {
            lemma_stored_rounds_deliver_the_payload(data, entry, start, room, done + take);
        }
    }
}

/// What a chunked read of an entry holds between two rounds.
pub enum StreamView {
    /// The read goes on.
    Reading {
        /// The entry is deflated; otherwise it is stored.
        deflated: bool,
        /// The CRC-32 that the entry names.
        crc32: u32,
        /// Size of the scratch for compressed bytes.
        chunk: nat,
        /// Where the read stands.
        run: InflateRun,
    },
    /// The read has ended, with the last byte or with an error.
    Finished,
}

/// How a chunked read of an entry begins: refused, or at the start of the
/// entry's data.
///
/// An empty scratch is refused first, then an entry over the size limit.
/// The local file header is read before the compression method is looked
/// at, and the compressed size must fit in `usize`.
pub open spec fn stream_start(
    data: Seq<u8>,
    limits: Option<ZipLimits>,
    entry: CdEntryView,
    scratch_len: nat,
) -> Result<StreamView, ZipError> {
    if scratch_len == 0 {
        Err(ZipError::BufferTooSmall)
    } else if exceeds_read_limit(limits, entry) {
        Err(ZipError::FileTooLarge)
    } else {
        match data_offset_at(data, entry.local_header_offset as int) {
            Err(e) => Err(e),
            Ok(start) => if entry.method != METHOD_STORED && entry.method != METHOD_DEFLATED {
                Err(ZipError::UnsupportedCompression)
            } else if entry.compressed_size > usize::MAX {
                Err(ZipError::FileTooLarge)
            } else {
                Ok(
                    StreamView::Reading {
                        deflated: entry.method == METHOD_DEFLATED,
                        crc32: entry.crc32,
                        chunk: scratch_len,
                        run: inflate_start(entry, start),
                    },
                )
            },
        }
    }
}

/// The next round of a chunked read, with `room` bytes for output.
pub open spec fn stream_round(data: Seq<u8>, view: StreamView, room: nat) -> Round {
    match view {
        StreamView::Reading { deflated, crc32, chunk, run } => if deflated {
            onto_round(data, crc32, chunk, room, run)
        } else {
            stored_round(data, crc32, room, run)
        },
        StreamView::Finished => (Seq::<u8>::empty(), Ok(None)),
    }
}

/// What a chunked read holds after a round.
pub open spec fn stream_after(view: StreamView, round: Round) -> StreamView {
    match (view, round.1) {
        (StreamView::Reading { deflated, crc32, chunk, run }, Ok(Some(next))) => StreamView::Reading {
            deflated,
            crc32,
            chunk,
            run: next,
        },
        _ => StreamView::Finished,
    }
}

/// A chunked read of one entry: the decompressor, the running checksum and
/// the scratch for compressed bytes.
pub struct EntryStream {
    state: miniz_oxide::inflate::stream::InflateState,
    hasher: crc32fast::Hasher,
    input: Vec<u8>,
    deflated: bool,
    crc32: u32,
    remaining: usize,
    pos: u64,
    pending_from: usize,
    pending_to: usize,
    written: usize,
    finished: bool,
    produced: Ghost<Seq<u8>>,
}

impl View for EntryStream {
    type V = StreamView;

    closed spec fn view(&self) -> StreamView {
        if self.finished {
            StreamView::Finished
        } else {
            StreamView::Reading {
                deflated: self.deflated,
                crc32: self.crc32,
                chunk: self.input@.len(),
                run: InflateRun {
                    fed: inflate_fed(self.state),
                    remaining: self.remaining as nat,
                    pos: self.pos as nat,
                    pending: self.input@.subrange(
                        self.pending_from as int,
                        self.pending_to as int,
                    ),
                    out: self.produced@,
                },
            }
        }
    }
}

impl EntryStream {
    /// The stream is consistent: the scratch is not empty, the pending
    /// bytes lie in it, and while the read goes on the checksum is that of
    /// the bytes delivered.
    pub closed spec fn wf(&self) -> bool {
        &&& self.input@.len() > 0
        &&& self.pending_from <= self.pending_to <= self.input@.len()
        &&& self.remaining + (self.pending_to - self.pending_from) <= usize::MAX
        &&& self.written + (if self.deflated {
            0
        } else {
            self.remaining as int
        }) <= usize::MAX
        &&& !self.finished ==> self.written == self.produced@.len()
        &&& !self.finished ==> hasher_value(self.hasher) == crc32_of(self.produced@)
    }

    /// Says whether the read has ended.
    pub fn is_finished(&self) -> (r: bool)
        ensures
            r == (self@ == StreamView::Finished),
    {
        self.finished
    }
}

impl StreamingZip {
    /// Begins a chunked read of an entry, with a scratch of `scratch_len`
    /// bytes for compressed input.
    pub fn open_entry(&self, entry: &CdEntry, scratch_len: usize) -> (r: Result<
        EntryStream,
        ZipError,
    >)
        ensures
            match stream_start(self@.data, self@.limits, entry@, scratch_len as nat) {
                Ok(view) => r matches Ok(stream) && stream@ == view && stream.wf(),
                Err(e) => r matches Err(x) && x == e,
            },
    {
        if scratch_len == 0 {
            return Err(ZipError::BufferTooSmall);
        }
        if let Some(limits) = self.limits() {
            if entry.uncompressed_size > limits.max_file_read_size as u64 {
                return Err(ZipError::FileTooLarge);
            }
            if entry.compressed_size > limits.max_file_read_size as u64 {
                return Err(ZipError::FileTooLarge);
            }
        }
        let start: u64 = match calc_data_offset(self.bytes(), entry) {
            Ok(offset) => offset,
            Err(e) => {
                return Err(e);
            },
        };
        if entry.method != METHOD_STORED && entry.method != METHOD_DEFLATED {
            return Err(ZipError::UnsupportedCompression);
        }
        if entry.compressed_size > usize::MAX as u64 {
            return Err(ZipError::FileTooLarge);
        }
        let input: Vec<u8> = vec![0u8; scratch_len];
        let stream = EntryStream {
            state: new_inflate_state(),
            hasher: hasher_new(),
            input,
            deflated: entry.method == METHOD_DEFLATED,
            crc32: entry.crc32,
            remaining: entry.compressed_size as usize,
            pos: start,
            pending_from: 0,
            pending_to: 0,
            written: 0,
            finished: false,
            produced: Ghost(Seq::<u8>::empty()),
        };
        proof {
            assert(stream.input@.subrange(0, 0) =~= Seq::<u8>::empty());
        }
        Ok(stream)
    }

    /// Runs the next round of a chunked read: writes the next bytes of the
    /// entry to the front of `output_buf` and returns their number, with
    /// the error that the round ended in, if any. The bytes are delivered
    /// even where the round fails. A read that has ended delivers nothing.
    pub fn next_chunk(&self, stream: &mut EntryStream, output_buf: &mut [u8]) -> (r: (
        usize,
        Result<(), ZipError>,
    ))
        requires
            old(stream).wf(),
        ensures
            final(stream).wf(),
            final(output_buf)@.len() == old(output_buf)@.len(),
            old(stream)@ != StreamView::Finished && old(output_buf)@.len() == 0 ==> r == (
                0usize,
                Err::<(), ZipError>(ZipError::BufferTooSmall),
            ) && final(stream)@ == old(stream)@,
            old(stream)@ == StreamView::Finished || old(output_buf)@.len() > 0 ==> ({
                let round = stream_round(self@.data, old(stream)@, old(output_buf)@.len());
                &&& r.0 == round.0.len()
                &&& final(output_buf)@ == round.0 + old(output_buf)@.subrange(
                    round.0.len() as int,
                    old(output_buf)@.len() as int,
                )
                &&& final(stream)@ == stream_after(old(stream)@, round)
                &&& match round.1 {
                    Err(e) => r.1 == Err::<(), ZipError>(e),
                    Ok(_) => r.1 == Ok::<(), ZipError>(()),
                }
            }),
    {
        if stream.finished {
            proof {
                assert(Seq::<u8>::empty() + output_buf@.subrange(0, output_buf@.len() as int)
                    =~= output_buf@);
            }
            return (0, Ok(()));
        }
        if output_buf.len() == 0 {
            return (0, Err(ZipError::BufferTooSmall));
        }
        if stream.deflated {
            self.next_inflated(stream, output_buf)
        } else {
            self.next_stored(stream, output_buf)
        }
    }

    fn next_stored(&self, stream: &mut EntryStream, output_buf: &mut [u8]) -> (r: (
        usize,
        Result<(), ZipError>,
    ))
        requires
            old(stream).wf(),
            !old(stream).finished,
            !old(stream).deflated,
            old(output_buf)@.len() > 0,
        ensures
            final(stream).wf(),
            final(output_buf)@.len() == old(output_buf)@.len(),
            ({
                let round = stream_round(self@.data, old(stream)@, old(output_buf)@.len());
                &&& r.0 == round.0.len()
                &&& final(output_buf)@ == round.0 + old(output_buf)@.subrange(
                    round.0.len() as int,
                    old(output_buf)@.len() as int,
                )
                &&& final(stream)@ == stream_after(old(stream)@, round)
                &&& match round.1 {
                    Err(e) => r.1 == Err::<(), ZipError>(e),
                    Ok(_) => r.1 == Ok::<(), ZipError>(()),
                }
            }),
    {
        let data = self.bytes();
        let ghost before = output_buf@;
        let ghost out = stream.produced@;
        proof {
            assert(Seq::<u8>::empty() + before.subrange(0, before.len() as int) =~= before);
        }
        let take: usize = if stream.remaining < output_buf.len() {
            stream.remaining
        } else {
            output_buf.len()
        };
        if take > 0 {
            if !available(data, stream.pos, take) {
                stream.finished = true;
                return (0, Err(ZipError::IoError));
            }
            copy_bytes(output_buf, data, stream.pos as usize, take);
            hasher_update(&mut stream.hasher, slice_subrange(output_buf, 0, take));
            proof {
                assert(output_buf@.subrange(0, take as int) =~= span(
                    data@,
                    stream.pos as int,
                    take as int,
                ));
            }
            stream.pos = stream.pos + take as u64;
        }
        let ghost bytes = span(data@, old(stream).pos as int, take as int);
        proof {
            assert(output_buf@ =~= bytes + before.subrange(take as int, before.len() as int));
            assert(out + Seq::<u8>::empty() =~= out);
        }
        stream.remaining = stream.remaining - take;
        stream.written = stream.written + take;
        stream.produced = Ghost(out + bytes);
        if stream.remaining == 0 {
            stream.finished = true;
            if stream.crc32 != 0 && hasher_current(&stream.hasher) != stream.crc32 {
                return (take, Err(ZipError::CrcMismatch));
            }
            return (take, Ok(()));
        }
        (take, Ok(()))
    }

    fn next_inflated(&self, stream: &mut EntryStream, output_buf: &mut [u8]) -> (r: (
        usize,
        Result<(), ZipError>,
    ))
        requires
            old(stream).wf(),
            !old(stream).finished,
            old(stream).deflated,
            old(output_buf)@.len() > 0,
        ensures
            final(stream).wf(),
            final(output_buf)@.len() == old(output_buf)@.len(),
            ({
                let round = stream_round(self@.data, old(stream)@, old(output_buf)@.len());
                &&& r.0 == round.0.len()
                &&& final(output_buf)@ == round.0 + old(output_buf)@.subrange(
                    round.0.len() as int,
                    old(output_buf)@.len() as int,
                )
                &&& final(stream)@ == stream_after(old(stream)@, round)
                &&& match round.1 {
                    Err(e) => r.1 == Err::<(), ZipError>(e),
                    Ok(_) => r.1 == Ok::<(), ZipError>(()),
                }
            }),
    {
        let data = self.bytes();
        let ghost before = output_buf@;
        let ghost out = stream.produced@;
        let ghost run = InflateRun {
            fed: inflate_fed(stream.state),
            remaining: stream.remaining as nat,
            pos: stream.pos as nat,
            pending: stream.input@.subrange(stream.pending_from as int, stream.pending_to as int),
            out,
        };
        proof {
            assert(Seq::<u8>::empty() + before.subrange(0, before.len() as int) =~= before);
        }
        if stream.pending_from == stream.pending_to && stream.remaining > 0 {
            let take: usize = if stream.remaining < stream.input.len() {
                stream.remaining
            } else {
                stream.input.len()
            };
            if !available(data, stream.pos, take) {
                stream.finished = true;
                return (0, Err(ZipError::IoError));
            }
            copy_bytes(stream.input.as_mut_slice(), data, stream.pos as usize, take);
            proof {
                assert(stream.input@.subrange(0, take as int) =~= data@.subrange(
                    stream.pos as int,
                    stream.pos + take,
                ));
            }
            stream.pending_from = 0;
            stream.pending_to = take;
            stream.remaining = stream.remaining - take;
            stream.pos = stream.pos + take as u64;
        }
        let ghost taken = InflateRun {
            fed: inflate_fed(stream.state),
            remaining: stream.remaining as nat,
            pos: stream.pos as nat,
            pending: stream.input@.subrange(stream.pending_from as int, stream.pending_to as int),
            out,
        };
        assert(refilled(data@, run, old(stream).input@.len()) == Ok::<InflateRun, ZipError>(
            taken,
        ));
        let ghost room = output_buf@.len() as int;
        let step: InflateStep = inflate_chunk(
            &mut stream.state,
            slice_subrange(stream.input.as_slice(), stream.pending_from, stream.pending_to),
            output_buf,
        );
        let ghost bytes = output_buf@.subrange(0, step.produced as int);
        proof {
            assert(stream.input@.subrange(
                stream.pending_from + step.consumed,
                stream.pending_to as int,
            ) =~= taken.pending.subrange(step.consumed as int, taken.pending.len() as int));
            assert(step_in_bounds(step, bytes, taken.pending.len() as int, room));
            assert(output_buf@ =~= bytes + before.subrange(
                step.produced as int,
                before.len() as int,
            ));
            if step.produced == 0 {
                assert(out + bytes =~= out);
            }
        }
        stream.pending_from = stream.pending_from + step.consumed;
        if step.produced > 0 {
            hasher_update(&mut stream.hasher, slice_subrange(output_buf, 0, step.produced));
        }
        stream.produced = Ghost(out + bytes);
        let ghost next = after_step(taken, room, step, bytes);
        match stream.written.checked_add(step.produced) {
            Some(n) => {
                stream.written = n;
            },
            None => {
                stream.finished = true;
                return (step.produced, Err(ZipError::FileTooLarge));
            },
        }
        match judge_step(step, stream.remaining + (stream.pending_to - stream.pending_from)) {
            InflateVerdict::Failed => {
                stream.finished = true;
                (step.produced, Err(ZipError::DecompressError))
            },
            InflateVerdict::Finished => {
                stream.finished = true;
                if hasher_current(&stream.hasher) != stream.crc32 {
                    return (step.produced, Err(ZipError::CrcMismatch));
                }
                (step.produced, Ok(()))
            },
            InflateVerdict::Continue => {
                proof {
                    assert(next == (InflateRun {
                        fed: inflate_fed(stream.state),
                        remaining: stream.remaining as nat,
                        pos: stream.pos as nat,
                        pending: stream.input@.subrange(
                            stream.pending_from as int,
                            stream.pending_to as int,
                        ),
                        out: stream.produced@,
                    }));
                }
                (step.produced, Ok(()))
            },
        }
    }
}

} // verus!
