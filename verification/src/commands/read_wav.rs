//! Recording the decoded stream into an audio file.

use crate::io::{
    io_error_interrupted,
    may_classify_interrupted,
    may_classify_other,
    retry_if_interrupted,
    AmplitudePolicy,
};
use crate::stream::StreamingLoop;
use vstd::prelude::*;

verus! {

/// What the recording command is started with.
#[derive(Debug, PartialEq, Eq)]
pub struct ReadWavArgs {
    pub port: String,
    pub sampling_rate: u32,
    pub baud_rate: u32,
    pub output: String,
}

/// The format of the audio file that a recording is written to.
#[derive(Clone, Copy, Debug, PartialEq, Eq, Structural)]
pub struct RecordingFormat {
    pub channels: u16,
    pub sample_rate: u32,
    pub bits_per_sample: u16,
}

/// The number of input bytes that a recording reads at a time: those of
/// about a quarter of a second, and no fewer than 1024.
pub open spec fn recording_buffer_len(sampling_rate: u32) -> int {
    if sampling_rate / 32 > 1024 {
        sampling_rate as int / 32
    } else {
        1024
    }
}

impl ReadWavArgs {
    /// The format of the file: one channel of eight-bit samples at the
    /// sampling rate.
    pub fn format(&self) -> (format: RecordingFormat)
        ensures
            format == (RecordingFormat {
                channels: 1,
                sample_rate: self.sampling_rate,
                bits_per_sample: 8,
            }),
    {
        RecordingFormat { channels: 1, sample_rate: self.sampling_rate, bits_per_sample: 8 }
    }

    /// The number of input bytes read at a time.
    pub fn buffer_size(&self) -> (len: usize)
        ensures
            len == recording_buffer_len(self.sampling_rate),
    {
        let quarter_second = (self.sampling_rate / (8 * 4)) as usize;
        if quarter_second > 1024 {
            quarter_second
        } else {
            1024
        }
    }

    /// The streaming loop of a recording, before its first step: signed
    /// samples over the full range.
    pub fn stream(&self) -> (stream: StreamingLoop)
        ensures
            stream == StreamingLoop::new_spec(
                AmplitudePolicy::FullRangeSigned,
                recording_buffer_len(self.sampling_rate) as usize,
            ),
    {
        StreamingLoop::new(AmplitudePolicy::FullRangeSigned, self.buffer_size())
    }
}

/// The error type of the audio-file writer. Its contents are not visible to
/// the proofs.
#[verifier::external_type_specification]
#[verifier::external_body]
pub struct ExWavError(hound::Error);

/// The I/O error that an error of the audio-file writer holds: the field of
/// its variant `IoError`, and nothing for every other variant.
pub uninterp spec fn wav_io_cause(error: hound::Error) -> Option<std::io::Error>;

/// Tells the variants of `hound::Error` apart: hands out the I/O error that
/// `IoError` holds, and nothing for the other variants.
#[verifier::external_body]
fn io_error_of(error: &hound::Error) -> (cause: Option<&std::io::Error>)
    ensures
        match cause {
            Some(held) => wav_io_cause(*error) == Some(*held),
            None => wav_io_cause(*error) is None,
        },
{
    match error {
        hound::Error::IoError(cause) => Some(cause),
        hound::Error::FormatError(_) => None,
        hound::Error::TooWide => None,
        hound::Error::UnfinishedSample => None,
        hound::Error::Unsupported => None,
        hound::Error::InvalidSampleFormat => None,
    }
}

/// Whether a failure of the audio-file writer is an interruption: it holds
/// an I/O error, and that one is of the kind `Interrupted`.
pub open spec fn interrupted_write(error: hound::Error) -> bool {
    wav_io_cause(error) matches Some(cause) && io_error_interrupted(cause)
}

/// Writes one sample through `write`, retrying as
/// [`retry_if_interrupted`] does, with the I/O error behind a failure of the
/// writer as what tells an interruption. `write` has to write the same sample
/// each time.
///
/// `None` where no attempt is allowed; else an outcome of `write` that is no
/// interrupted failure, or `None` where `write` can fail interrupted. An
/// interrupted failure itself is never handed out, so that no sample is
/// dropped in silence.
pub fn write_sample<F: FnMut() -> Result<(), hound::Error>>(write: F, attempts: usize) -> (outcome:
    Option<Result<(), hound::Error>>)
    requires
        call_requires(write, ()),
    ensures
        attempts == 0 ==> outcome is None,
        match outcome {
            Some(result) => call_ensures(write, (), result) && (result matches Err(error)
                ==> !interrupted_write(error)),
            None => attempts == 0 || exists|error: hound::Error|
                call_ensures(write, (), Err(error)) && interrupted_write(error),
        },
{
    let outcome = retry_if_interrupted(write, io_error_of, attempts);
    proof {
        if outcome is Some {
            let result = outcome->Some_0;
            assert(result is Ok || may_classify_other(io_error_of, result->Err_0));
        } else if attempts != 0 {
            let error = choose|error: hound::Error|
                call_ensures(write, (), Err::<(), hound::Error>(error))
                    && may_classify_interrupted(io_error_of, error);
            assert(interrupted_write(error));
        }
    }
    outcome
}

} // verus!
