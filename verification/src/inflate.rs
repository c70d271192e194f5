//! Raw DEFLATE decompression, one step at a time, by the `miniz_oxide` crate.

use vstd::prelude::*;

verus! {

/// The streaming decompressor state of `miniz_oxide`.
#[verifier::external_type_specification]
#[verifier::external_body]
pub struct ExInflateState(miniz_oxide::inflate::stream::InflateState);

/// How a decompression step ended.
#[derive(Clone, Copy, Debug, PartialEq, Eq, Structural)]
pub enum InflateStatus {
    /// The step succeeded and the stream goes on.
    Running,
    /// The step succeeded and the end of the stream was found.
    StreamEnd,
    /// A preset dictionary would be needed.
    NeedDict,
    /// The step failed.
    Failed,
}

/// What one decompression step did.
#[derive(Clone, Copy, Debug, PartialEq, Eq, Structural)]
pub struct InflateStep {
    /// Bytes taken from the front of the input.
    pub consumed: usize,
    /// Bytes written to the front of the output.
    pub produced: usize,
    /// How the step ended.
    pub status: InflateStatus,
}

/// What the reader does after a decompression step.
#[derive(Clone, Copy, Debug, PartialEq, Eq, Structural)]
pub enum InflateVerdict {
    /// Run another step.
    Continue,
    /// The entry is complete.
    Finished,
    /// The compressed data is not a well-formed entry.
    Failed,
}

/// The reader's decision after a step, where `unread` compressed bytes of
/// the entry are left after it.
///
/// The end of the stream completes the entry only if no compressed byte is
/// left over. A step that goes on must have made progress.
pub open spec fn verdict_of(step: InflateStep, unread: int) -> InflateVerdict {
    match step.status {
        InflateStatus::StreamEnd => if unread != 0 {
            InflateVerdict::Failed
        } else {
            InflateVerdict::Finished
        },
        InflateStatus::Running => if step.consumed == 0 && step.produced == 0 {
            InflateVerdict::Failed
        } else {
            InflateVerdict::Continue
        },
        InflateStatus::NeedDict => InflateVerdict::Failed,
        InflateStatus::Failed => InflateVerdict::Failed,
    }
}

/// Decides what to do after a decompression step.
pub fn judge_step(step: InflateStep, unread: usize) -> (r: InflateVerdict)
    ensures
        r == verdict_of(step, unread as int),
{
    match step.status {
        InflateStatus::StreamEnd => {
            if unread != 0 {
                InflateVerdict::Failed
            } else {
                InflateVerdict::Finished
            }
        },
        InflateStatus::Running => {
            if step.consumed == 0 && step.produced == 0 {
                InflateVerdict::Failed
            } else {
                InflateVerdict::Continue
            }
        },
        InflateStatus::NeedDict => InflateVerdict::Failed,
        InflateStatus::Failed => InflateVerdict::Failed,
    }
}

/// The calls that a decompressor state has served since it was made: for
/// each, the input it was offered and the room it had for output.
pub uninterp spec fn inflate_fed(state: miniz_oxide::inflate::stream::InflateState) -> Seq<
    (Seq<u8>, int),
>;

/// What a decompression step does, after the calls in `fed`, when it is
/// offered `input` and has `room` bytes for output: the step's report and
/// the bytes it writes.
pub uninterp spec fn inflate_step_of(fed: Seq<(Seq<u8>, int)>, input: Seq<u8>, room: int) -> (
    InflateStep,
    Seq<u8>,
);

/// `InflateState::new` for raw DEFLATE data: a state that has served no call.
#[verifier::external_body]
pub(crate) fn new_inflate_state() -> (state: miniz_oxide::inflate::stream::InflateState)
    ensures
        inflate_fed(state) == Seq::<(Seq<u8>, int)>::empty(),
{
    miniz_oxide::inflate::stream::InflateState::new(miniz_oxide::DataFormat::Raw)
}

/// `miniz_oxide::inflate::stream::inflate` without flushing: the step takes
/// bytes from the front of `input` and writes bytes to the front of
/// `output`, no more than each holds, and leaves the rest of `output` as it
/// was. Its report and the bytes it writes depend only on the calls that
/// the state has served, on the input and on the room for output; the state
/// has then served this call too.
#[verifier::external_body]
pub(crate) fn inflate_chunk(
    state: &mut miniz_oxide::inflate::stream::InflateState,
    input: &[u8],
    output: &mut [u8],
) -> (r: InflateStep)
    ensures
        r.consumed <= input@.len(),
        r.produced <= old(output)@.len(),
        final(output)@.len() == old(output)@.len(),
        final(output)@.subrange(r.produced as int, old(output)@.len() as int) == old(output)@.subrange(r.produced as int, old(output)@.len() as int),
        (r, final(output)@.subrange(0, r.produced as int)) == inflate_step_of(inflate_fed(*old(state)), input@, old(output)@.len() as int),
        inflate_fed(*final(state)) == inflate_fed(*old(state)).push((input@, old(output)@.len() as int)),
{
    let res = miniz_oxide::inflate::stream::inflate(
        state,
        input,
        output,
        miniz_oxide::MZFlush::None,
    );
    let status = match res.status {
        Ok(miniz_oxide::MZStatus::Ok) => InflateStatus::Running,
        Ok(miniz_oxide::MZStatus::StreamEnd) => InflateStatus::StreamEnd,
        Ok(miniz_oxide::MZStatus::NeedDict) => InflateStatus::NeedDict,
        Err(_) => InflateStatus::Failed,
    };
    InflateStep { consumed: res.bytes_consumed, produced: res.bytes_written, status }
}

} // verus!
