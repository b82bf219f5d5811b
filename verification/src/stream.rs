//! The streaming loop: which step follows which while bytes are read,
//! decoded and written until cancellation. The caller reads, writes and
//! polls; the order of these steps is decided here.

use crate::ctrlc::CtrlCIgnoredContext;
use crate::io::{
    decode_esp32_sample,
    decode_esp32_sample_unsigned_full_range,
    decode_esp32_sample_unsigned_half_range,
    decoded_block,
    AmplitudePolicy,
};
use vstd::prelude::*;

verus! {

/// The sample values that a run of input bytes decodes to: the blocks of the
/// bytes, in order.
pub open spec fn decoded_stream(input: Seq<u8>, policy: AmplitudePolicy) -> Seq<int>
    decreases input.len(),
{
    if input.len() == 0 {
        Seq::empty()
    } else {
        decoded_stream(input.drop_last(), policy) + decoded_block(input.last(), policy)
    }
}

/// Every input byte gives eight samples.
pub proof fn lemma_decoded_stream_len(input: Seq<u8>, policy: AmplitudePolicy)
    ensures
        decoded_stream(input, policy).len() == 8 * input.len(),
    decreases input.len(),
{
    if input.len() > 0 {
        lemma_decoded_stream_len(input.drop_last(), policy);
    }
}

/// The sample that stands at `at` in a decoded stream is the one that its
/// byte gives for its bit, most significant bit first.
pub proof fn lemma_decoded_stream_index(input: Seq<u8>, policy: AmplitudePolicy, at: int)
    requires
        0 <= at < 8 * input.len(),
    ensures
        decoded_stream(input, policy).len() == 8 * input.len(),
        decoded_stream(input, policy)[at] == decoded_block(input[at / 8], policy)[at % 8],
    decreases input.len(),
{
    lemma_decoded_stream_len(input, policy);
    lemma_decoded_stream_len(input.drop_last(), policy);
    if at < 8 * (input.len() - 1) {
        lemma_decoded_stream_index(input.drop_last(), policy, at);
    }
}

/// A batch of decoded samples, in the sample type of its policy.
#[derive(Debug, PartialEq, Eq)]
pub enum SampleBatch {
    Signed(Vec<i8>),
    Unsigned(Vec<u8>),
}

impl SampleBatch {
    /// The sample values of the batch, whichever sample type holds them.
    pub open spec fn levels(&self) -> Seq<int> {
        match self {
            SampleBatch::Signed(samples) => samples@.map_values(|sample: i8| sample as int),
            SampleBatch::Unsigned(samples) => samples@.map_values(|sample: u8| sample as int),
        }
    }

    /// The number of samples in the batch.
    pub fn len(&self) -> (len: usize)
        ensures
            len == self.levels().len(),
    {
        match self {
            SampleBatch::Signed(samples) => samples.len(),
            SampleBatch::Unsigned(samples) => samples.len(),
        }
    }
}

fn decode_signed(input: &[u8]) -> (samples: Vec<i8>)
    ensures
        samples@.map_values(|sample: i8| sample as int) == decoded_stream(
            input@,
            AmplitudePolicy::FullRangeSigned,
        ),
{
    let mut samples: Vec<i8> = Vec::new();
    let mut at: usize = 0;
    while at < input.len()
        invariant
            at <= input.len(),
            samples@.map_values(|sample: i8| sample as int) == decoded_stream(
                input@.take(at as int),
                AmplitudePolicy::FullRangeSigned,
            ),
        decreases input.len() - at,
    {
        let block = decode_esp32_sample(input[at]);
        let ghost before = samples@;
        let mut bit: usize = 0;
        while bit < 8
            invariant
                bit <= 8,
                samples@ == before + block@.take(bit as int),
            decreases 8 - bit,
        {
            samples.push(block[bit]);
            bit = bit + 1;
            assert(samples@ =~= before + block@.take(bit as int));
        }
        assert(block@.take(8) =~= block@);
        assert(input@.take(at + 1).drop_last() =~= input@.take(at as int));
        assert(samples@.map_values(|sample: i8| sample as int) =~= before.map_values(
            |sample: i8| sample as int,
        ) + block@.map_values(|sample: i8| sample as int));
        at = at + 1;
    }
    assert(input@.take(input@.len() as int) =~= input@);
    samples
}

fn decode_unsigned(input: &[u8], policy: AmplitudePolicy) -> (samples: Vec<u8>)
    requires
        policy != AmplitudePolicy::FullRangeSigned,
    ensures
        samples@.map_values(|sample: u8| sample as int) == decoded_stream(input@, policy),
{
    let mut samples: Vec<u8> = Vec::new();
    let mut at: usize = 0;
    while at < input.len()
        invariant
            at <= input.len(),
            policy != AmplitudePolicy::FullRangeSigned,
            samples@.map_values(|sample: u8| sample as int) == decoded_stream(
                input@.take(at as int),
                policy,
            ),
        decreases input.len() - at,
    {
        let block = match policy {
            AmplitudePolicy::HalfRangeUnsigned => decode_esp32_sample_unsigned_half_range(
                input[at],
            ),
            _ => decode_esp32_sample_unsigned_full_range(input[at]),
        };
        let ghost before = samples@;
        let mut bit: usize = 0;
        while bit < 8
            invariant
                bit <= 8,
                samples@ == before + block@.take(bit as int),
            decreases 8 - bit,
        {
            samples.push(block[bit]);
            bit = bit + 1;
            assert(samples@ =~= before + block@.take(bit as int));
        }
        assert(block@.take(8) =~= block@);
        assert(input@.take(at + 1).drop_last() =~= input@.take(at as int));
        assert(samples@.map_values(|sample: u8| sample as int) =~= before.map_values(
            |sample: u8| sample as int,
        ) + block@.map_values(|sample: u8| sample as int));
        at = at + 1;
    }
    assert(input@.take(input@.len() as int) =~= input@);
    samples
}

/// Decodes a buffer of input bytes into the batch of samples that is written
/// for it: eight samples a byte, bytes in order, most significant bit first.
pub fn decode_chunk(input: &[u8], policy: AmplitudePolicy) -> (batch: SampleBatch)
    ensures
        batch.levels() == decoded_stream(input@, policy),
        batch is Signed <==> policy == AmplitudePolicy::FullRangeSigned,
{
    match policy {
        AmplitudePolicy::FullRangeSigned => SampleBatch::Signed(decode_signed(input)),
        _ => SampleBatch::Unsigned(decode_unsigned(input, policy)),
    }
}

/// How a stream came to its end.
#[derive(Debug, PartialEq, Eq)]
pub enum StreamEnd<E> {
    /// Cancellation was seen, no further read was issued and the output was
    /// finalized.
    Cancelled,
    /// Reading, writing or finalizing failed. Nothing was done after that.
    Failed(E),
}

/// What the caller reports to the streaming loop.
#[derive(Debug, PartialEq, Eq)]
pub enum StreamEvent<E> {
    /// The cancellation flag was looked at.
    Polled { cancelled: bool },
    /// A read came back: with a full buffer, with nothing because it was
    /// interrupted, or with a failure.
    ReadDone(Result<Option<Vec<u8>>, E>),
    /// The batch was written, or writing failed.
    Written(Result<(), E>),
    /// The output was finalized, or finalizing failed.
    Finalized(Result<(), E>),
}

impl<E> StreamEvent<E> {
    /// The event of having looked at the cancellation flag through `context`.
    pub fn polled(context: &CtrlCIgnoredContext) -> (event: StreamEvent<E>)
        ensures
            event == (StreamEvent::<E>::Polled { cancelled: context.received() }),
    {
        StreamEvent::Polled { cancelled: context.has_received_ctrlc() }
    }
}

/// An event as the rules of the loop see it.
pub enum StreamEventView<E> {
    Polled { cancelled: bool },
    ReadDone(Result<Option<Seq<u8>>, E>),
    Written(Result<(), E>),
    Finalized(Result<(), E>),
}

impl<E> View for StreamEvent<E> {
    type V = StreamEventView<E>;

    open spec fn view(&self) -> StreamEventView<E> {
        match self {
            StreamEvent::Polled { cancelled } => StreamEventView::Polled { cancelled: *cancelled },
            StreamEvent::ReadDone(Ok(Some(bytes))) => StreamEventView::ReadDone(Ok(Some(bytes@))),
            StreamEvent::ReadDone(Ok(None)) => StreamEventView::ReadDone(Ok(None)),
            StreamEvent::ReadDone(Err(error)) => StreamEventView::ReadDone(Err(*error)),
            StreamEvent::Written(result) => StreamEventView::Written(*result),
            StreamEvent::Finalized(result) => StreamEventView::Finalized(*result),
        }
    }
}

/// What the streaming loop asks of the caller next.
#[derive(Debug, PartialEq, Eq)]
pub enum StreamAction<E> {
    /// Look at the cancellation flag.
    Poll,
    /// Read exactly `len` bytes of input.
    Read { len: usize },
    /// Write this batch of samples to the output.
    Write(SampleBatch),
    /// Finalize the output: everything written so far is to be kept.
    Finalize,
    /// The stream is over.
    Stop(StreamEnd<E>),
    /// The event does not belong here; nothing changes.
    Ignore,
}

/// An action as the rules of the loop see it.
pub enum StreamStep<E> {
    Poll,
    Read { len: usize },
    Write { levels: Seq<int>, signed: bool },
    Finalize,
    Stop(StreamEnd<E>),
    Ignore,
}

impl<E> View for StreamAction<E> {
    type V = StreamStep<E>;

    open spec fn view(&self) -> StreamStep<E> {
        match self {
            StreamAction::Poll => StreamStep::Poll,
            StreamAction::Read { len } => StreamStep::Read { len: *len },
            StreamAction::Write(batch) => StreamStep::Write {
                levels: batch.levels(),
                signed: batch is Signed,
            },
            StreamAction::Finalize => StreamStep::Finalize,
            StreamAction::Stop(end) => StreamStep::Stop(*end),
            StreamAction::Ignore => StreamStep::Ignore,
        }
    }
}

/// The step of a round that the streaming loop waits in.
#[derive(Clone, Copy, Debug, PartialEq, Eq, Structural)]
pub enum StreamPhase {
    /// The cancellation flag is to be looked at before the next read.
    Polling,
    /// A read is under way.
    Reading,
    /// A batch of `samples` samples is being written.
    Writing { samples: usize },
    /// Cancellation was seen and the output is being finalized.
    Finalizing,
    /// The stream is over.
    Finished,
}

/// The streaming loop between two of its steps.
#[derive(Clone, Copy, Debug, PartialEq, Eq, Structural)]
pub struct StreamingLoop {
    pub phase: StreamPhase,
    pub policy: AmplitudePolicy,
    pub buffer_size: usize,
    /// The samples written so far. It never goes down, and stays at the
    /// largest value once it is reached.
    pub total_written_samples: u64,
}

/// The sum of a counter and an addend, kept at the largest value of the
/// counter where it would go beyond.
pub open spec fn counted(total: u64, samples: usize) -> u64 {
    if total + samples > u64::MAX {
        u64::MAX
    } else {
        (total + samples) as u64
    }
}

impl StreamingLoop {
    /// This loop in another phase.
    pub open spec fn at(self, phase: StreamPhase) -> StreamingLoop {
        StreamingLoop { phase, ..self }
    }

    /// The loop that follows `self` on `event`.
    pub open spec fn next_state<E>(self, event: StreamEventView<E>) -> StreamingLoop {
        match (self.phase, event) {
            (StreamPhase::Polling, StreamEventView::Polled { cancelled }) => if cancelled {
                self.at(StreamPhase::Finalizing)
            } else {
                self.at(StreamPhase::Reading)
            },
            (StreamPhase::Reading, StreamEventView::ReadDone(Ok(Some(bytes)))) => self.at(
                StreamPhase::Writing { samples: (8 * bytes.len()) as usize },
            ),
            (StreamPhase::Reading, StreamEventView::ReadDone(Ok(None))) => self.at(
                StreamPhase::Polling,
            ),
            (StreamPhase::Reading, StreamEventView::ReadDone(Err(_))) => self.at(
                StreamPhase::Finished,
            ),
            (StreamPhase::Writing { samples }, StreamEventView::Written(Ok(_))) => StreamingLoop {
                phase: StreamPhase::Polling,
                total_written_samples: counted(self.total_written_samples, samples),
                ..self
            },
            (StreamPhase::Writing { .. }, StreamEventView::Written(Err(_))) => self.at(
                StreamPhase::Finished,
            ),
            (StreamPhase::Finalizing, StreamEventView::Finalized(_)) => self.at(
                StreamPhase::Finished,
            ),
            _ => self,
        }
    }

    /// What `self` asks for on `event`.
    pub open spec fn action<E>(self, event: StreamEventView<E>) -> StreamStep<E> {
        match (self.phase, event) {
            (StreamPhase::Polling, StreamEventView::Polled { cancelled }) => if cancelled {
                StreamStep::Finalize
            } else {
                StreamStep::Read { len: self.buffer_size }
            },
            (StreamPhase::Reading, StreamEventView::ReadDone(Ok(Some(bytes)))) => StreamStep::Write {
                levels: decoded_stream(bytes, self.policy),
                signed: self.policy == AmplitudePolicy::FullRangeSigned,
            },
            (StreamPhase::Reading, StreamEventView::ReadDone(Ok(None))) => StreamStep::Poll,
            (StreamPhase::Reading, StreamEventView::ReadDone(Err(error))) => StreamStep::Stop(
                StreamEnd::Failed(error),
            ),
            (StreamPhase::Writing { .. }, StreamEventView::Written(Ok(_))) => StreamStep::Poll,
            (StreamPhase::Writing { .. }, StreamEventView::Written(Err(error))) => StreamStep::Stop(
                StreamEnd::Failed(error),
            ),
            (StreamPhase::Finalizing, StreamEventView::Finalized(Ok(_))) => StreamStep::Stop(
                StreamEnd::Cancelled,
            ),
            (StreamPhase::Finalizing, StreamEventView::Finalized(Err(error))) => StreamStep::Stop(
                StreamEnd::Failed(error),
            ),
            _ => StreamStep::Ignore,
        }
    }

    /// A loop that has written nothing yet and is about to look at the
    /// cancellation flag for the first time.
    pub open spec fn new_spec(policy: AmplitudePolicy, buffer_size: usize) -> StreamingLoop {
        StreamingLoop { phase: StreamPhase::Polling, policy, buffer_size, total_written_samples: 0 }
    }

    /// A loop that has written nothing yet and is about to look at the
    /// cancellation flag for the first time.
    #[verifier::when_used_as_spec(new_spec)]
    pub fn new(policy: AmplitudePolicy, buffer_size: usize) -> (stream: StreamingLoop)
        ensures
            stream == Self::new_spec(policy, buffer_size),
    {
        StreamingLoop { phase: StreamPhase::Polling, policy, buffer_size, total_written_samples: 0 }
    }

    /// Takes one event and tells what to do next.
    ///
    /// Cancellation is looked for once a round, before the read. A full
    /// buffer is decoded and written whatever the flag says by then; an
    /// interrupted read gives no samples and leads back to the flag. The first
    /// failure ends the stream at once, without finalizing.
    pub fn step<E>(self, event: StreamEvent<E>) -> (next: (StreamingLoop, StreamAction<E>))
        ensures
            next.0 == self.next_state(event@),
            next.1@ == self.action(event@),
    {
        let StreamingLoop { phase, policy, buffer_size, total_written_samples } = self;
        match (phase, event) {
            (StreamPhase::Polling, StreamEvent::Polled { cancelled }) => if cancelled {
                (
                    StreamingLoop {
                        phase: StreamPhase::Finalizing,
                        policy,
                        buffer_size,
                        total_written_samples,
                    },
                    StreamAction::Finalize,
                )
            } else {
                (
                    StreamingLoop {
                        phase: StreamPhase::Reading,
                        policy,
                        buffer_size,
                        total_written_samples,
                    },
                    StreamAction::Read { len: buffer_size },
                )
            },
            (StreamPhase::Reading, StreamEvent::ReadDone(Ok(Some(bytes)))) => {
                let batch = decode_chunk(bytes.as_slice(), policy);
                proof {
                    lemma_decoded_stream_len(bytes@, policy);
                }
                (
                    StreamingLoop {
                        phase: StreamPhase::Writing { samples: batch.len() },
                        policy,
                        buffer_size,
                        total_written_samples,
                    },
                    StreamAction::Write(batch),
                )
            },
            (StreamPhase::Reading, StreamEvent::ReadDone(Ok(None))) => (
                StreamingLoop {
                    phase: StreamPhase::Polling,
                    policy,
                    buffer_size,
                    total_written_samples,
                },
                StreamAction::Poll,
            ),
            (StreamPhase::Reading, StreamEvent::ReadDone(Err(error))) => (
                StreamingLoop {
                    phase: StreamPhase::Finished,
                    policy,
                    buffer_size,
                    total_written_samples,
                },
                StreamAction::Stop(StreamEnd::Failed(error)),
            ),
            (StreamPhase::Writing { samples }, StreamEvent::Written(Ok(_))) => (
                StreamingLoop {
                    phase: StreamPhase::Polling,
                    policy,
                    buffer_size,
                    total_written_samples: total_written_samples.saturating_add(samples as u64),
                },
                StreamAction::Poll,
            ),
            (StreamPhase::Writing { .. }, StreamEvent::Written(Err(error))) => (
                StreamingLoop {
                    phase: StreamPhase::Finished,
                    policy,
                    buffer_size,
                    total_written_samples,
                },
                StreamAction::Stop(StreamEnd::Failed(error)),
            ),
            (StreamPhase::Finalizing, StreamEvent::Finalized(Ok(_))) => (
                StreamingLoop {
                    phase: StreamPhase::Finished,
                    policy,
                    buffer_size,
                    total_written_samples,
                },
                StreamAction::Stop(StreamEnd::Cancelled),
            ),
            (StreamPhase::Finalizing, StreamEvent::Finalized(Err(error))) => (
                StreamingLoop {
                    phase: StreamPhase::Finished,
                    policy,
                    buffer_size,
                    total_written_samples,
                },
                StreamAction::Stop(StreamEnd::Failed(error)),
            ),
            (phase, _) => (
                StreamingLoop { phase, policy, buffer_size, total_written_samples },
                StreamAction::Ignore,
            ),
        }
    }
}

impl StreamingLoop {
    /// The loop reached from `self` by `events`, in order.
    pub open spec fn end<E>(self, events: Seq<StreamEventView<E>>) -> StreamingLoop
        decreases events.len(),
    {
        if events.len() == 0 {
            self
        } else {
            self.next_state(events[0]).end(events.drop_first())
        }
    }

    /// What the loop asks for, in order, while `events` take it from `self`
    /// to the end.
    pub open spec fn steps<E>(self, events: Seq<StreamEventView<E>>) -> Seq<StreamStep<E>>
        decreases events.len(),
    {
        if events.len() == 0 {
            Seq::empty()
        } else {
            seq![self.action(events[0])] + self.next_state(events[0]).steps(events.drop_first())
        }
    }

    /// Whether the loop has not yet seen cancellation or failure.
    pub open spec fn streaming(self) -> bool {
        self.phase is Polling || self.phase is Reading || self.phase is Writing
    }
}

/// The number of times that a run asks to finalize the output.
pub open spec fn finalizes<E>(steps: Seq<StreamStep<E>>) -> nat
    decreases steps.len(),
{
    if steps.len() == 0 {
        0
    } else {
        (if steps[0] is Finalize {
            1nat
        } else {
            0nat
        }) + finalizes(steps.drop_first())
    }
}

/// The number of times that a run stops as cancelled.
pub open spec fn completions<E>(steps: Seq<StreamStep<E>>) -> nat
    decreases steps.len(),
{
    if steps.len() == 0 {
        0
    } else {
        (if steps[0] == StreamStep::<E>::Stop(StreamEnd::Cancelled) {
            1nat
        } else {
            0nat
        }) + completions(steps.drop_first())
    }
}

/// The counter of written samples never goes down.
pub proof fn lemma_total_is_monotonic<E>(stream: StreamingLoop, events: Seq<StreamEventView<E>>)
    ensures
        stream.end(events).total_written_samples >= stream.total_written_samples,
        stream.end(events).policy == stream.policy,
        stream.end(events).buffer_size == stream.buffer_size,
    decreases events.len(),
{
    if events.len() > 0 {
        lemma_total_is_monotonic(stream.next_state(events[0]), events.drop_first());
    }
}

/// The output is finalized at most once, only while the stream has not
/// ended, and a stream stops as cancelled only after it was finalized: a run
/// that completes normally has asked to finalize exactly once.
pub proof fn lemma_finalized_once<E>(stream: StreamingLoop, events: Seq<StreamEventView<E>>)
    ensures
        finalizes(stream.steps(events)) <= if stream.streaming() {
            1nat
        } else {
            0nat
        },
        completions(stream.steps(events)) <= 1,
        completions(stream.steps(events)) <= finalizes(stream.steps(events)) + if stream.phase
            is Finalizing {
            1nat
        } else {
            0nat
        },
    decreases events.len(),
{
    if events.len() > 0 {
        let next = stream.next_state(events[0]);
        lemma_finalized_once(next, events.drop_first());
        assert(stream.steps(events).drop_first() =~= next.steps(events.drop_first()));
    }
}

/// Cancellation ends the stream in good order: a loop that sees the flag
/// raised issues no further read, asks to finalize the output and, once that
/// is done, stops as cancelled rather than failed.
pub proof fn lemma_cancellation_completes<E>(stream: StreamingLoop)
    requires
        stream.phase is Polling,
    ensures
        stream.steps::<E>(
            seq![
                StreamEventView::Polled { cancelled: true },
                StreamEventView::Finalized(Ok(())),
            ],
        ) == seq![StreamStep::<E>::Finalize, StreamStep::Stop(StreamEnd::Cancelled)],
        stream.end::<E>(
            seq![
                StreamEventView::Polled { cancelled: true },
                StreamEventView::Finalized(Ok(())),
            ],
        ) == stream.at(StreamPhase::Finished),
{
    let events = seq![
        StreamEventView::<E>::Polled { cancelled: true },
        StreamEventView::Finalized(Ok(())),
    ];
    let rest = events.drop_first();
    assert(rest.len() == 1);
    assert(rest.drop_first().len() == 0);
    reveal_with_fuel(StreamingLoop::steps, 3);
    reveal_with_fuel(StreamingLoop::end, 3);
    assert(stream.steps(events) =~= seq![
        StreamStep::<E>::Finalize,
        StreamStep::Stop(StreamEnd::Cancelled),
    ]);
}

/// A round in flight is completed: once a read has filled the buffer, the
/// decoded batch is written and counted before the flag is looked at again.
pub proof fn lemma_round_completes<E>(stream: StreamingLoop, bytes: Seq<u8>)
    requires
        stream.phase is Reading,
        8 * bytes.len() <= usize::MAX,
    ensures
        stream.steps::<E>(
            seq![StreamEventView::ReadDone(Ok(Some(bytes))), StreamEventView::Written(Ok(()))],
        ) == seq![
            StreamStep::<E>::Write {
                levels: decoded_stream(bytes, stream.policy),
                signed: stream.policy == AmplitudePolicy::FullRangeSigned,
            },
            StreamStep::Poll,
        ],
        stream.end::<E>(
            seq![StreamEventView::ReadDone(Ok(Some(bytes))), StreamEventView::Written(Ok(()))],
        ) == (StreamingLoop {
            phase: StreamPhase::Polling,
            total_written_samples: counted(
                stream.total_written_samples,
                (8 * bytes.len()) as usize,
            ),
            ..stream
        }),
{
    let events = seq![
        StreamEventView::<E>::ReadDone(Ok(Some(bytes))),
        StreamEventView::Written(Ok(())),
    ];
    let rest = events.drop_first();
    assert(rest.len() == 1);
    assert(rest.drop_first().len() == 0);
    reveal_with_fuel(StreamingLoop::steps, 3);
    reveal_with_fuel(StreamingLoop::end, 3);
    assert(stream.steps(events) =~= seq![
        StreamStep::<E>::Write {
            levels: decoded_stream(bytes, stream.policy),
            signed: stream.policy == AmplitudePolicy::FullRangeSigned,
        },
        StreamStep::Poll,
    ]);
}

/// Decoding goes byte by byte: the stream of a concatenation is the
/// concatenation of the streams.
pub proof fn lemma_decoded_stream_concat(first: Seq<u8>, second: Seq<u8>, policy: AmplitudePolicy)
    ensures
        decoded_stream(first + second, policy) == decoded_stream(first, policy) + decoded_stream(
            second,
            policy,
        ),
    decreases second.len(),
{
    if second.len() == 0 {
        assert(first + second =~= first);
        assert(decoded_stream(first, policy) + decoded_stream(second, policy) =~= decoded_stream(
            first,
            policy,
        ));
    } else {
        assert((first + second).drop_last() =~= first + second.drop_last());
        lemma_decoded_stream_concat(first, second.drop_last(), policy);
        assert(decoded_stream(first + second, policy) =~= decoded_stream(first, policy)
            + decoded_stream(second, policy));
    }
}

/// The events of one round that goes through: the flag is found cleared,
/// the read fills the buffer with `bytes`, and the batch is written.
pub open spec fn round<E>(bytes: Seq<u8>) -> Seq<StreamEventView<E>> {
    seq![
        StreamEventView::Polled { cancelled: false },
        StreamEventView::ReadDone(Ok(Some(bytes))),
        StreamEventView::Written(Ok(())),
    ]
}

/// The events of one round after the other, one for each of `buffers`.
pub open spec fn rounds<E>(buffers: Seq<Seq<u8>>) -> Seq<StreamEventView<E>>
    decreases buffers.len(),
{
    if buffers.len() == 0 {
        Seq::empty()
    } else {
        rounds(buffers.drop_last()) + round(buffers.last())
    }
}

/// The events that end a stream in good order: the flag is found raised and
/// the output is finalized.
pub open spec fn cancellation<E>() -> Seq<StreamEventView<E>> {
    seq![StreamEventView::Polled { cancelled: true }, StreamEventView::Finalized(Ok(()))]
}

/// The input bytes of `buffers`, one buffer after the other.
pub open spec fn joined(buffers: Seq<Seq<u8>>) -> Seq<u8>
    decreases buffers.len(),
{
    if buffers.len() == 0 {
        Seq::empty()
    } else {
        joined(buffers.drop_last()) + buffers.last()
    }
}

/// The samples that a run asks to write, in order.
pub open spec fn written<E>(steps: Seq<StreamStep<E>>) -> Seq<int>
    decreases steps.len(),
{
    if steps.len() == 0 {
        Seq::empty()
    } else {
        written(steps.drop_last()) + match steps.last() {
            StreamStep::Write { levels, .. } => levels,
            _ => Seq::empty(),
        }
    }
}

/// The number of reads that a run asks for.
pub open spec fn reads<E>(steps: Seq<StreamStep<E>>) -> nat
    decreases steps.len(),
{
    if steps.len() == 0 {
        0
    } else {
        reads(steps.drop_last()) + if steps.last() is Read {
            1nat
        } else {
            0nat
        }
    }
}

/// A run in two parts: the second part starts where the first one ends.
pub proof fn lemma_steps_concat<E>(
    stream: StreamingLoop,
    first: Seq<StreamEventView<E>>,
    second: Seq<StreamEventView<E>>,
)
    ensures
        stream.steps(first + second) == stream.steps(first) + stream.end(first).steps(second),
        stream.end(first + second) == stream.end(first).end(second),
    decreases first.len(),
{
    if first.len() == 0 {
        assert(first + second =~= second);
        assert(stream.steps(first) + stream.end(first).steps(second) =~= stream.steps(second));
    } else {
        assert((first + second).drop_first() =~= first.drop_first() + second);
        lemma_steps_concat(stream.next_state(first[0]), first.drop_first(), second);
        assert(stream.steps(first + second) =~= stream.steps(first) + stream.end(first).steps(
            second,
        ));
    }
}

/// What was asked to write and to read over two runs of steps is what was
/// asked over the first and then over the second.
pub proof fn lemma_written_concat<E>(first: Seq<StreamStep<E>>, second: Seq<StreamStep<E>>)
    ensures
        written(first + second) == written(first) + written(second),
        reads(first + second) == reads(first) + reads(second),
    decreases second.len(),
{
    if second.len() == 0 {
        assert(first + second =~= first);
        assert(written(first) + written(second) =~= written(first));
    } else {
        assert((first + second).drop_last() =~= first + second.drop_last());
        lemma_written_concat(first, second.drop_last());
        assert(written(first + second) =~= written(first) + written(second));
    }
}

/// The finalizations over two runs of steps are those of the first and those
/// of the second.
pub proof fn lemma_finalizes_concat<E>(first: Seq<StreamStep<E>>, second: Seq<StreamStep<E>>)
    ensures
        finalizes(first + second) == finalizes(first) + finalizes(second),
        completions(first + second) == completions(first) + completions(second),
    decreases first.len(),
{
    if first.len() == 0 {
        assert(first + second =~= second);
    } else {
        assert((first + second).drop_first() =~= first.drop_first() + second);
        lemma_finalizes_concat(first.drop_first(), second);
    }
}

/// Rounds that go through leave the loop before the flag, with every buffer
/// decoded and written in order and one read a buffer.
pub proof fn lemma_rounds_write_the_decoded_input<E>(
    stream: StreamingLoop,
    buffers: Seq<Seq<u8>>,
)
    requires
        stream.phase is Polling,
        forall|at: int| 0 <= at < buffers.len() ==> 8 * (#[trigger] buffers[at]).len() <= usize::MAX,
    ensures
        stream.end(rounds::<E>(buffers)).phase is Polling,
        stream.end(rounds::<E>(buffers)).policy == stream.policy,
        written(stream.steps(rounds::<E>(buffers))) == decoded_stream(
            joined(buffers),
            stream.policy,
        ),
        reads(stream.steps(rounds::<E>(buffers))) == buffers.len(),
        finalizes(stream.steps(rounds::<E>(buffers))) == 0,
    decreases buffers.len(),
{
    if buffers.len() > 0 {
        let before = buffers.drop_last();
        let bytes = buffers.last();
        lemma_rounds_write_the_decoded_input::<E>(stream, before);
        let middle = stream.end(rounds::<E>(before));
        lemma_steps_concat(stream, rounds::<E>(before), round::<E>(bytes));
        lemma_written_concat(stream.steps(rounds::<E>(before)), middle.steps(round::<E>(bytes)));
        lemma_finalizes_concat(stream.steps(rounds::<E>(before)), middle.steps(round::<E>(bytes)));
        lemma_decoded_stream_concat(joined(before), bytes, stream.policy);
        let events = round::<E>(bytes);
        let steps = middle.steps(events);
        let expected = seq![
            StreamStep::<E>::Read { len: middle.buffer_size },
            StreamStep::Write {
                levels: decoded_stream(bytes, stream.policy),
                signed: stream.policy == AmplitudePolicy::FullRangeSigned,
            },
            StreamStep::Poll,
        ];
        assert(steps =~= expected && middle.end(events).phase is Polling && middle.end(
            events,
        ).policy == stream.policy) by {
            assert(events.drop_first().len() == 2);
            assert(events.drop_first().drop_first().len() == 1);
            assert(events.drop_first().drop_first().drop_first().len() == 0);
            reveal_with_fuel(StreamingLoop::steps, 4);
            reveal_with_fuel(StreamingLoop::end, 4);
        }
        assert(written(expected) =~= decoded_stream(bytes, stream.policy) && reads(expected) == 1
            && finalizes(expected) == 0) by {
            assert(expected.drop_last().len() == 2);
            assert(expected.drop_last().drop_last().len() == 1);
            assert(expected.drop_last().drop_last().drop_last().len() == 0);
            assert(expected.drop_first().len() == 2);
            assert(expected.drop_first().drop_first().len() == 1);
            assert(expected.drop_first().drop_first().drop_first().len() == 0);
            reveal_with_fuel(written, 4);
            reveal_with_fuel(reads, 4);
            reveal_with_fuel(finalizes, 4);
        }
    }
}

/// End to end: whatever the number of buffers that were read before the
/// interrupt, the samples written are the input decoded byte by byte in
/// order, no read is issued after the interrupt was seen, the output is
/// finalized exactly once, and the stream stops as cancelled.
pub proof fn lemma_cancelled_stream_end_to_end<E>(stream: StreamingLoop, buffers: Seq<Seq<u8>>)
    requires
        stream.phase is Polling,
        forall|at: int| 0 <= at < buffers.len() ==> 8 * (#[trigger] buffers[at]).len() <= usize::MAX,
    ensures
        ({
            let steps = stream.steps(rounds::<E>(buffers) + cancellation::<E>());
            &&& written(steps) == decoded_stream(joined(buffers), stream.policy)
            &&& reads(steps) == buffers.len()
            &&& finalizes(steps) == 1
            &&& completions(steps) == 1
            &&& steps.last() == StreamStep::<E>::Stop(StreamEnd::Cancelled)
        }),
        stream.end(rounds::<E>(buffers) + cancellation::<E>()).phase is Finished,
{
    lemma_rounds_write_the_decoded_input::<E>(stream, buffers);
    let middle = stream.end(rounds::<E>(buffers));
    lemma_steps_concat(stream, rounds::<E>(buffers), cancellation::<E>());
    lemma_cancellation_completes::<E>(middle);
    let tail = seq![StreamStep::<E>::Finalize, StreamStep::Stop(StreamEnd::Cancelled)];
    assert(middle.steps(cancellation::<E>()) == tail);
    lemma_written_concat(stream.steps(rounds::<E>(buffers)), tail);
    lemma_finalizes_concat(stream.steps(rounds::<E>(buffers)), tail);
    assert(written(tail) =~= Seq::<int>::empty() && reads(tail) == 0 && finalizes(tail) == 1
        && completions(tail) == 1) by {
        assert(tail.drop_last().len() == 1);
        assert(tail.drop_last().drop_last().len() == 0);
        assert(tail.drop_first().len() == 1);
        assert(tail.drop_first().drop_first().len() == 0);
        reveal_with_fuel(written, 3);
        reveal_with_fuel(reads, 3);
        reveal_with_fuel(finalizes, 3);
        reveal_with_fuel(completions, 3);
    }
    lemma_finalized_once(stream, rounds::<E>(buffers));
    assert(completions(stream.steps(rounds::<E>(buffers))) == 0);
}

} // verus!
