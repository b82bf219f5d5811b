//! Playing the decoded stream through a virtual sink of the audio server.

use crate::io::AmplitudePolicy;
use crate::sink::{decimal, push_decimal, AudioSpec, SampleFormat, SinkSpec};
use crate::stream::StreamingLoop;
use vstd::prelude::*;

verus! {

/// How far the played samples swing.
#[derive(Clone, Copy, Debug, PartialEq, Eq, PartialOrd, Ord, Structural)]
pub enum WaveAmplitude {
    Full,
    Half,
}

impl WaveAmplitude {
    /// The policy by which the bits are decoded for playback: unsigned
    /// samples, over the full range or over its upper half.
    pub open spec fn policy_spec(self) -> AmplitudePolicy {
        match self {
            WaveAmplitude::Full => AmplitudePolicy::FullRangeUnsigned,
            WaveAmplitude::Half => AmplitudePolicy::HalfRangeUnsigned,
        }
    }

    /// The policy by which the bits are decoded for playback.
    #[verifier::when_used_as_spec(policy_spec)]
    pub fn policy(self) -> (policy: AmplitudePolicy)
        ensures
            policy == self.policy_spec(),
    {
        match self {
            WaveAmplitude::Full => AmplitudePolicy::FullRangeUnsigned,
            WaveAmplitude::Half => AmplitudePolicy::HalfRangeUnsigned,
        }
    }

    /// The word by which the amplitude is chosen and shown.
    pub fn name(&self) -> (name: &'static str)
        ensures
            name@ == match self {
                WaveAmplitude::Full => "full"@,
                WaveAmplitude::Half => "half"@,
            },
    {
        match self {
            WaveAmplitude::Full => "full",
            WaveAmplitude::Half => "half",
        }
    }
}

/// What the playback command is started with.
#[derive(Debug, PartialEq, Eq)]
pub struct PulseStreamArgs {
    pub port: String,
    pub sampling_rate: u32,
    pub baud_rate: u32,
    pub wave_amplitude: WaveAmplitude,
}

/// The name of the virtual sink that playback goes through.
pub open spec fn pulse_sink_name() -> Seq<char> {
    "esp32-signal-device"@
}

/// The description under which the virtual sink is shown.
pub open spec fn pulse_sink_description() -> Seq<char> {
    "ESP32 Signal Reader"@
}

/// The number of input bytes that playback reads at a time: those of about
/// fifty milliseconds, and no fewer than 32.
pub open spec fn playback_buffer_len(sampling_rate: u32) -> int {
    if sampling_rate / 160 > 32 {
        sampling_rate as int / 160
    } else {
        32
    }
}

/// How much the audio server buffers for a playback stream. A field that
/// holds the largest value leaves the choice to the server.
#[derive(Clone, Copy, Debug, PartialEq, Eq, Structural)]
pub struct BufferAttr {
    pub maxlength: u32,
    pub tlength: u32,
    pub prebuf: u32,
    pub minreq: u32,
    pub fragsize: u32,
}

impl PulseStreamArgs {
    /// The audio that is played: one channel of unsigned eight-bit samples at
    /// the sampling rate.
    pub fn audio_spec(&self) -> (spec: AudioSpec)
        ensures
            spec == (AudioSpec {
                format: SampleFormat::U8,
                rate: self.sampling_rate,
                channels: 1,
            }),
    {
        AudioSpec { format: SampleFormat::U8, rate: self.sampling_rate, channels: 1 }
    }

    /// The virtual sink that playback goes through.
    pub fn sink_spec(&self) -> (spec: SinkSpec)
        ensures
            spec.sink_name@ == pulse_sink_name(),
            spec.description() == Some(pulse_sink_description()),
            spec.audio_format == (AudioSpec {
                format: SampleFormat::U8,
                rate: self.sampling_rate,
                channels: 1,
            }),
    {
        SinkSpec {
            sink_name: "esp32-signal-device".to_owned(),
            device_description: Some("ESP32 Signal Reader".to_owned()),
            audio_format: self.audio_spec(),
        }
    }

    /// The buffering asked of the audio server: the samples of one second of
    /// input bytes are held back before playback starts, the rest is left to
    /// the server.
    pub fn buffer_attr(&self) -> (attr: BufferAttr)
        ensures
            attr == (BufferAttr {
                maxlength: u32::MAX,
                tlength: u32::MAX,
                prebuf: self.sampling_rate / 8,
                minreq: u32::MAX,
                fragsize: 0,
            }),
    {
        BufferAttr {
            maxlength: u32::MAX,
            tlength: u32::MAX,
            prebuf: self.sampling_rate / 8,
            minreq: u32::MAX,
            fragsize: 0,
        }
    }

    /// The number of input bytes read at a time.
    pub fn buffer_size(&self) -> (len: usize)
        ensures
            len == playback_buffer_len(self.sampling_rate),
    {
        let fifty_milliseconds = (self.sampling_rate / (8 * 20)) as usize;
        if fifty_milliseconds > 32 {
            fifty_milliseconds
        } else {
            32
        }
    }

    /// The streaming loop of a playback, before its first step.
    pub fn stream(&self) -> (stream: StreamingLoop)
        ensures
            stream == StreamingLoop::new_spec(
                self.wave_amplitude.policy_spec(),
                playback_buffer_len(self.sampling_rate) as usize,
            ),
    {
        StreamingLoop::new(self.wave_amplitude.policy(), self.buffer_size())
    }
}

/// What is told to the operator where the sink exists already, line by line:
/// that it is there, and how to remove it, with the command where the
/// module that owns it is known.
pub open spec fn conflict_report(existing_module: Option<u32>) -> Seq<Seq<char>> {
    let found = "Sink '"@ + pulse_sink_name()
        + "' already exists, probably because the program did not exit cleanly the last time."@;
    match existing_module {
        Some(module) => seq![
            found,
            "Please remove it manually before proceeding with the following command:"@,
            Seq::empty(),
            "pactl unload-module "@ + decimal(module as nat),
        ],
        None => seq![found, "Please remove it manually before proceeding."@],
    }
}

/// What the lines of a report say.
pub open spec fn lines_of(report: Seq<String>) -> Seq<Seq<char>> {
    report.map_values(|line: String| line@)
}

/// Decides whether playback may start, given what the server tells of a sink
/// with the name that playback uses: `Ok` where there is none, else the
/// report for the operator. A sink left over is never taken over or removed.
pub fn check_existing_sink(existing_sink: Option<Option<u32>>) -> (start: Result<
    (),
    Vec<String>,
>)
    ensures
        match existing_sink {
            None => start is Ok,
            Some(existing_module) => start is Err && lines_of(start->Err_0@) == conflict_report(
                existing_module,
            ),
        },
{
    match existing_sink {
        None => Ok(()),
        Some(existing_module) => {
            let mut report: Vec<String> = Vec::new();
            let mut found = "Sink '".to_owned();
            found.append("esp32-signal-device");
            found.append(
                "' already exists, probably because the program did not exit cleanly the last time.",
            );
            report.push(found);
            match existing_module {
                Some(module) => {
                    report.push(
                        "Please remove it manually before proceeding with the following command:".to_owned(),
                    );
                    report.push(String::new());
                    let mut command = "pactl unload-module ".to_owned();
                    push_decimal(&mut command, module);
                    report.push(command);
                },
                None => {
                    report.push("Please remove it manually before proceeding.".to_owned());
                },
            }
            assert(lines_of(report@) =~= conflict_report(existing_module));
            Err(report)
        },
    }
}

} // verus!
