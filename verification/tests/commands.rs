use esp32_samples_reader::commands::pulse_stream::{
    check_existing_sink, BufferAttr, PulseStreamArgs, WaveAmplitude,
};
use esp32_samples_reader::commands::read_wav::{ReadWavArgs, RecordingFormat};
use esp32_samples_reader::commands::{
    command_result, exit_status, serial_settings, CommandEnd, SerialSettings,
};
use esp32_samples_reader::io::AmplitudePolicy;
use esp32_samples_reader::sink::{AudioSpec, SampleFormat};
use esp32_samples_reader::stream::{StreamEnd, StreamPhase};

fn playback(sampling_rate: u32, wave_amplitude: WaveAmplitude) -> PulseStreamArgs {
    PulseStreamArgs {
        port: "/dev/ttyUSB0".to_string(),
        sampling_rate,
        baud_rate: 921600,
        wave_amplitude,
    }
}

fn recording(sampling_rate: u32) -> ReadWavArgs {
    ReadWavArgs {
        port: "/dev/ttyUSB0".to_string(),
        sampling_rate,
        baud_rate: 921600,
        output: "out.wav".to_string(),
    }
}

#[test]
fn playback_reads_fifty_milliseconds_at_a_time() {
    assert_eq!(playback(0, WaveAmplitude::Full).buffer_size(), 32);
    assert_eq!(playback(5119, WaveAmplitude::Full).buffer_size(), 32);
    assert_eq!(playback(5120, WaveAmplitude::Full).buffer_size(), 32);
    assert_eq!(playback(5280, WaveAmplitude::Full).buffer_size(), 33);
    assert_eq!(playback(8000, WaveAmplitude::Full).buffer_size(), 50);
    assert_eq!(playback(44100, WaveAmplitude::Full).buffer_size(), 275);
    assert_eq!(playback(u32::MAX, WaveAmplitude::Full).buffer_size(), 26843545);
}

#[test]
fn recording_reads_a_quarter_of_a_second_at_a_time() {
    assert_eq!(recording(0).buffer_size(), 1024);
    assert_eq!(recording(8000).buffer_size(), 1024);
    assert_eq!(recording(32768).buffer_size(), 1024);
    assert_eq!(recording(32800).buffer_size(), 1025);
    assert_eq!(recording(44100).buffer_size(), 1024 + 354);
    assert_eq!(recording(1_000_000).buffer_size(), 31250);
    assert_eq!(recording(u32::MAX).buffer_size(), 134217727);
}

#[test]
fn playback_stream_uses_the_chosen_amplitude() {
    let stream = playback(16000, WaveAmplitude::Full).stream();
    assert_eq!(stream.policy, AmplitudePolicy::FullRangeUnsigned);
    assert_eq!(stream.buffer_size, 100);
    assert_eq!(stream.phase, StreamPhase::Polling);
    assert_eq!(stream.total_written_samples, 0);
    let stream = playback(16000, WaveAmplitude::Half).stream();
    assert_eq!(stream.policy, AmplitudePolicy::HalfRangeUnsigned);
    assert_eq!(WaveAmplitude::Full.policy(), AmplitudePolicy::FullRangeUnsigned);
    assert_eq!(WaveAmplitude::Half.policy(), AmplitudePolicy::HalfRangeUnsigned);
}

#[test]
fn recording_stream_is_signed() {
    let stream = recording(44100).stream();
    assert_eq!(stream.policy, AmplitudePolicy::FullRangeSigned);
    assert_eq!(stream.buffer_size, 1378);
    assert_eq!(stream.phase, StreamPhase::Polling);
    assert_eq!(stream.total_written_samples, 0);
}

#[test]
fn amplitude_names() {
    assert_eq!(WaveAmplitude::Full.name(), "full");
    assert_eq!(WaveAmplitude::Half.name(), "half");
    assert!(WaveAmplitude::Full < WaveAmplitude::Half);
}

#[test]
fn playback_sink() {
    let args = playback(8000, WaveAmplitude::Full);
    assert_eq!(
        args.audio_spec(),
        AudioSpec { format: SampleFormat::U8, rate: 8000, channels: 1 }
    );
    let sink = args.sink_spec();
    assert_eq!(sink.sink_name, "esp32-signal-device");
    assert_eq!(sink.device_description.as_deref(), Some("ESP32 Signal Reader"));
    assert_eq!(sink.audio_format, args.audio_spec());
    assert_eq!(
        sink.build_sink_arguments(),
        "sink_name=esp32-signal-device sink_properties=device.description='ESP32\\ Signal\\ Reader' format=u8 rate=8000 channels=1"
    );
}

#[test]
fn playback_buffering() {
    assert_eq!(
        playback(8000, WaveAmplitude::Full).buffer_attr(),
        BufferAttr {
            maxlength: u32::MAX,
            tlength: u32::MAX,
            prebuf: 1000,
            minreq: u32::MAX,
            fragsize: 0,
        }
    );
    assert_eq!(playback(7, WaveAmplitude::Half).buffer_attr().prebuf, 0);
}

#[test]
fn recording_format() {
    assert_eq!(
        recording(22050).format(),
        RecordingFormat { channels: 1, sample_rate: 22050, bits_per_sample: 8 }
    );
}

#[test]
fn serial_line() {
    assert_eq!(
        serial_settings(115200),
        SerialSettings {
            baud_rate: 115200,
            data_bits: 8,
            stop_bits: 1,
            parity: false,
            flow_control: false,
            timeout_seconds: 1,
        }
    );
}

#[test]
fn exit_statuses() {
    assert_eq!(exit_status(CommandEnd::Completed, 2), 0);
    assert_eq!(exit_status(CommandEnd::Interrupted, 2), 130);
    assert_eq!(exit_status(CommandEnd::Refused, 2), 1);
    assert_eq!(exit_status(CommandEnd::Interrupted, 15), 143);
    assert_eq!(exit_status(CommandEnd::Interrupted, 127), 255);
    assert_eq!(exit_status(CommandEnd::Interrupted, 0), 128);
}

#[test]
fn command_results() {
    assert_eq!(command_result(StreamEnd::<String>::Cancelled, 2), Ok(130));
    assert_eq!(
        command_result(StreamEnd::Failed("device unplugged".to_string()), 2),
        Err("device unplugged".to_string())
    );
}

#[test]
fn playback_starts_where_no_sink_is_left_over() {
    assert_eq!(check_existing_sink(None), Ok(()));
}

#[test]
fn leftover_sink_with_known_owner_is_reported_with_the_command() {
    assert_eq!(
        check_existing_sink(Some(Some(27))),
        Err(vec![
            "Sink 'esp32-signal-device' already exists, probably because the program did not exit cleanly the last time.".to_string(),
            "Please remove it manually before proceeding with the following command:".to_string(),
            "".to_string(),
            "pactl unload-module 27".to_string(),
        ])
    );
}

#[test]
fn leftover_sink_with_unknown_owner_is_reported() {
    assert_eq!(
        check_existing_sink(Some(None)),
        Err(vec![
            "Sink 'esp32-signal-device' already exists, probably because the program did not exit cleanly the last time.".to_string(),
            "Please remove it manually before proceeding.".to_string(),
        ])
    );
}
