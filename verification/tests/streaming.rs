use esp32_samples_reader::io::AmplitudePolicy;
use esp32_samples_reader::stream::{
    decode_chunk, SampleBatch, StreamAction, StreamEnd, StreamEvent, StreamPhase, StreamingLoop,
};
use std::collections::VecDeque;

/// What the fake input answers to one read.
enum Read {
    Filled(Vec<u8>),
    Interrupted,
    Failed(&'static str),
}

/// A file sink that keeps what it is given and counts its finalizations.
struct CapturingSink {
    samples: Vec<i16>,
    writes: usize,
    finalized: usize,
    fail_write_at: Option<usize>,
    fail_finalize: bool,
}

impl CapturingSink {
    fn new() -> Self {
        CapturingSink {
            samples: Vec::new(),
            writes: 0,
            finalized: 0,
            fail_write_at: None,
            fail_finalize: false,
        }
    }
}

struct Run {
    end: StreamEnd<&'static str>,
    stream: StreamingLoop,
    reads: usize,
    read_lengths: Vec<usize>,
    progress: Vec<u64>,
}

/// Drives the loop as a command does: the interrupt is raised once `reads`
/// has run dry, or after `cancel_after_writes` batches were written.
fn run(
    policy: AmplitudePolicy,
    buffer_size: usize,
    mut reads: VecDeque<Read>,
    cancel_after_writes: Option<usize>,
    sink: &mut CapturingSink,
) -> Run {
    let mut stream = StreamingLoop::new(policy, buffer_size);
    let mut action: StreamAction<&'static str> = StreamAction::Poll;
    let mut issued_reads = 0;
    let mut read_lengths = Vec::new();
    let mut progress = Vec::new();
    loop {
        let event = match action {
            StreamAction::Poll => {
                progress.push(stream.total_written_samples);
                let cancelled = reads.is_empty()
                    || cancel_after_writes.map_or(false, |writes| sink.writes >= writes);
                StreamEvent::Polled { cancelled }
            }
            StreamAction::Read { len } => {
                issued_reads += 1;
                read_lengths.push(len);
                match reads.pop_front().unwrap() {
                    Read::Filled(bytes) => StreamEvent::ReadDone(Ok(Some(bytes))),
                    Read::Interrupted => StreamEvent::ReadDone(Ok(None)),
                    Read::Failed(error) => StreamEvent::ReadDone(Err(error)),
                }
            }
            StreamAction::Write(batch) => {
                if sink.fail_write_at == Some(sink.writes) {
                    StreamEvent::Written(Err("sink is full"))
                } else {
                    sink.writes += 1;
                    match batch {
                        SampleBatch::Signed(samples) => {
                            sink.samples.extend(samples.iter().map(|&s| s as i16))
                        }
                        SampleBatch::Unsigned(samples) => {
                            sink.samples.extend(samples.iter().map(|&s| s as i16))
                        }
                    }
                    StreamEvent::Written(Ok(()))
                }
            }
            StreamAction::Finalize => {
                sink.finalized += 1;
                if sink.fail_finalize {
                    StreamEvent::Finalized(Err("cannot finalize"))
                } else {
                    StreamEvent::Finalized(Ok(()))
                }
            }
            StreamAction::Stop(end) => {
                return Run { end, stream, reads: issued_reads, read_lengths, progress };
            }
            StreamAction::Ignore => panic!("the loop ignored an event of its own protocol"),
        };
        let (next, asked) = stream.step(event);
        stream = next;
        action = asked;
    }
}

#[test]
fn two_bytes_end_to_end_full_range_unsigned() {
    let mut sink = CapturingSink::new();
    let run = run(
        AmplitudePolicy::FullRangeUnsigned,
        2,
        VecDeque::from([Read::Filled(vec![0xFF, 0x00])]),
        None,
        &mut sink,
    );
    assert_eq!(
        sink.samples,
        vec![255, 255, 255, 255, 255, 255, 255, 255, 0, 0, 0, 0, 0, 0, 0, 0]
    );
    assert_eq!(sink.samples.len(), 16);
    assert_eq!(sink.finalized, 1);
    assert_eq!(run.end, StreamEnd::Cancelled);
    assert_eq!(run.stream.phase, StreamPhase::Finished);
    assert_eq!(run.stream.total_written_samples, 16);
    assert_eq!(run.read_lengths, vec![2]);
}

#[test]
fn cancellation_after_some_buffers_completes_the_buffer_in_flight() {
    for buffers in 0..6usize {
        let mut sink = CapturingSink::new();
        let reads: VecDeque<Read> =
            (0..10).map(|round| Read::Filled(vec![round as u8, 0xA5, 0x0F])).collect();
        let run = run(AmplitudePolicy::FullRangeSigned, 3, reads, Some(buffers), &mut sink);
        assert_eq!(run.end, StreamEnd::Cancelled);
        assert_eq!(run.reads, buffers);
        assert_eq!(sink.writes, buffers);
        assert_eq!(sink.samples.len(), buffers * 3 * 8);
        assert_eq!(sink.finalized, 1);
        assert_eq!(run.stream.total_written_samples, (buffers * 24) as u64);
    }
}

#[test]
fn progress_never_goes_down() {
    let mut sink = CapturingSink::new();
    let reads = VecDeque::from([
        Read::Filled(vec![1, 2]),
        Read::Interrupted,
        Read::Filled(vec![3, 4]),
        Read::Filled(vec![5, 6]),
    ]);
    let run = run(AmplitudePolicy::HalfRangeUnsigned, 2, reads, None, &mut sink);
    assert_eq!(run.progress, vec![0, 16, 16, 32, 48]);
    assert_eq!(run.end, StreamEnd::Cancelled);
}

#[test]
fn interrupted_read_gives_no_samples_and_leads_back_to_the_flag() {
    let mut sink = CapturingSink::new();
    let reads = VecDeque::from([Read::Interrupted, Read::Interrupted, Read::Filled(vec![0x80])]);
    let run = run(AmplitudePolicy::FullRangeSigned, 1, reads, None, &mut sink);
    assert_eq!(run.end, StreamEnd::Cancelled);
    assert_eq!(run.reads, 3);
    assert_eq!(sink.writes, 1);
    assert_eq!(sink.samples, vec![127, -128, -128, -128, -128, -128, -128, -128]);
    assert_eq!(sink.finalized, 1);
}

#[test]
fn interrupted_read_then_cancellation() {
    let stream = StreamingLoop::new(AmplitudePolicy::FullRangeSigned, 4);
    let (stream, action) = stream.step::<&str>(StreamEvent::Polled { cancelled: false });
    assert_eq!(action, StreamAction::Read { len: 4 });
    let (stream, action) = stream.step::<&str>(StreamEvent::ReadDone(Ok(None)));
    assert_eq!(action, StreamAction::Poll);
    assert_eq!(stream.phase, StreamPhase::Polling);
    let (stream, action) = stream.step::<&str>(StreamEvent::Polled { cancelled: true });
    assert_eq!(action, StreamAction::Finalize);
    let (stream, action) = stream.step::<&str>(StreamEvent::Finalized(Ok(())));
    assert_eq!(action, StreamAction::Stop(StreamEnd::Cancelled));
    assert_eq!(stream.phase, StreamPhase::Finished);
    assert_eq!(stream.total_written_samples, 0);
}

#[test]
fn read_failure_stops_at_once_without_finalizing() {
    let mut sink = CapturingSink::new();
    let reads = VecDeque::from([
        Read::Filled(vec![0xFF]),
        Read::Failed("device unplugged"),
        Read::Filled(vec![0x00]),
    ]);
    let run = run(AmplitudePolicy::FullRangeUnsigned, 1, reads, None, &mut sink);
    assert_eq!(run.end, StreamEnd::Failed("device unplugged"));
    assert_eq!(run.reads, 2);
    assert_eq!(sink.samples, vec![255; 8]);
    assert_eq!(sink.finalized, 0);
    assert_eq!(run.stream.phase, StreamPhase::Finished);
}

#[test]
fn write_failure_stops_at_once_without_finalizing() {
    let mut sink = CapturingSink::new();
    sink.fail_write_at = Some(1);
    let reads = VecDeque::from([
        Read::Filled(vec![0xFF]),
        Read::Filled(vec![0x0F]),
        Read::Filled(vec![0x00]),
    ]);
    let run = run(AmplitudePolicy::FullRangeUnsigned, 1, reads, None, &mut sink);
    assert_eq!(run.end, StreamEnd::Failed("sink is full"));
    assert_eq!(run.reads, 2);
    assert_eq!(sink.writes, 1);
    assert_eq!(sink.finalized, 0);
    assert_eq!(run.stream.total_written_samples, 8);
}

#[test]
fn finalize_failure_is_a_failure() {
    let mut sink = CapturingSink::new();
    sink.fail_finalize = true;
    let run =
        run(AmplitudePolicy::FullRangeUnsigned, 1, VecDeque::new(), None, &mut sink);
    assert_eq!(run.end, StreamEnd::Failed("cannot finalize"));
    assert_eq!(sink.finalized, 1);
    assert_eq!(run.reads, 0);
}

#[test]
fn cancellation_before_the_first_read() {
    let mut sink = CapturingSink::new();
    let run = run(AmplitudePolicy::FullRangeSigned, 8, VecDeque::new(), None, &mut sink);
    assert_eq!(run.end, StreamEnd::Cancelled);
    assert_eq!(run.reads, 0);
    assert!(sink.samples.is_empty());
    assert_eq!(sink.finalized, 1);
}

#[test]
fn finished_loop_ignores_everything() {
    let finished = StreamingLoop {
        phase: StreamPhase::Finished,
        policy: AmplitudePolicy::FullRangeSigned,
        buffer_size: 4,
        total_written_samples: 80,
    };
    let events: Vec<StreamEvent<&str>> = vec![
        StreamEvent::Polled { cancelled: false },
        StreamEvent::Polled { cancelled: true },
        StreamEvent::ReadDone(Ok(Some(vec![1]))),
        StreamEvent::Written(Ok(())),
        StreamEvent::Finalized(Ok(())),
    ];
    for event in events {
        let (next, action) = finished.step(event);
        assert_eq!(action, StreamAction::Ignore);
        assert_eq!(next.phase, StreamPhase::Finished);
        assert_eq!(next.total_written_samples, 80);
    }
}

#[test]
fn stream_events_out_of_turn_change_nothing() {
    let polling = StreamingLoop::new(AmplitudePolicy::FullRangeSigned, 4);
    let (next, action) = polling.step::<&str>(StreamEvent::Written(Ok(())));
    assert_eq!(action, StreamAction::Ignore);
    assert_eq!(next.phase, StreamPhase::Polling);
    assert_eq!(next.total_written_samples, 0);
    let (reading, _) = polling.step::<&str>(StreamEvent::Polled { cancelled: false });
    let (next, action) = reading.step::<&str>(StreamEvent::Polled { cancelled: true });
    assert_eq!(action, StreamAction::Ignore);
    assert_eq!(next.phase, StreamPhase::Reading);
}

#[test]
fn counter_stays_at_its_largest_value() {
    let writing = StreamingLoop {
        phase: StreamPhase::Writing { samples: 16 },
        policy: AmplitudePolicy::FullRangeSigned,
        buffer_size: 2,
        total_written_samples: u64::MAX - 5,
    };
    let (next, action) = writing.step::<&str>(StreamEvent::Written(Ok(())));
    assert_eq!(action, StreamAction::Poll);
    assert_eq!(next.total_written_samples, u64::MAX);
    assert_eq!(next.phase, StreamPhase::Polling);
}

#[test]
fn chunks_decode_byte_by_byte() {
    assert_eq!(
        decode_chunk(&[0xFF, 0x00], AmplitudePolicy::FullRangeUnsigned),
        SampleBatch::Unsigned(vec![255, 255, 255, 255, 255, 255, 255, 255, 0, 0, 0, 0, 0, 0, 0, 0])
    );
    assert_eq!(
        decode_chunk(&[0b1011_0000], AmplitudePolicy::FullRangeSigned),
        SampleBatch::Signed(vec![127, -128, 127, 127, -128, -128, -128, -128])
    );
    assert_eq!(
        decode_chunk(&[0b0000_0001, 0b1000_0000], AmplitudePolicy::HalfRangeUnsigned),
        SampleBatch::Unsigned(vec![
            127, 127, 127, 127, 127, 127, 127, 255, 255, 127, 127, 127, 127, 127, 127, 127
        ])
    );
    assert_eq!(decode_chunk(&[], AmplitudePolicy::FullRangeSigned), SampleBatch::Signed(vec![]));
    assert_eq!(
        decode_chunk(&[], AmplitudePolicy::HalfRangeUnsigned),
        SampleBatch::Unsigned(vec![])
    );
    assert_eq!(decode_chunk(&[1, 2, 3], AmplitudePolicy::FullRangeSigned).len(), 24);
}
