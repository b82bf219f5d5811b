use esp32_samples_reader::sink::{
    push_decimal, push_signed_decimal, AudioSpec, SampleFormat, SinkSpec,
};

fn spec(description: Option<&str>, format: SampleFormat, rate: u32, channels: u8) -> SinkSpec {
    SinkSpec {
        sink_name: "esp32-signal-device".to_string(),
        device_description: description.map(|text| text.to_string()),
        audio_format: AudioSpec { format, rate, channels },
    }
}

#[test]
fn escapes_quote_space_and_backslash_one_by_one() {
    assert_eq!(SinkSpec::pa_escape_string("it's a\\b"), "it\\'s\\ a\\\\b");
}

#[test]
fn escapes_double_quotes() {
    assert_eq!(SinkSpec::pa_escape_string("say \"hi\""), "say\\ \\\"hi\\\"");
}

#[test]
fn leaves_other_characters_alone() {
    assert_eq!(SinkSpec::pa_escape_string("ESP32-Signal_Reader.v2"), "ESP32-Signal_Reader.v2");
    assert_eq!(SinkSpec::pa_escape_string(""), "");
    assert_eq!(SinkSpec::pa_escape_string("grüße\t=√"), "grüße\t=√");
}

#[test]
fn escapes_runs_of_special_characters() {
    assert_eq!(SinkSpec::pa_escape_string("  "), "\\ \\ ");
    assert_eq!(SinkSpec::pa_escape_string("\\\\"), "\\\\\\\\");
    assert_eq!(SinkSpec::pa_escape_string("'\" \\"), "\\'\\\"\\ \\\\");
}

#[test]
fn escaped_text_reads_back() {
    let inputs = ["it's a\\b", "plain", " ' \" \\ ", "", "a  b"];
    for input in inputs {
        let escaped = SinkSpec::pa_escape_string(input);
        let mut read_back = String::new();
        let mut chars = escaped.chars();
        while let Some(c) = chars.next() {
            if c == '\\' {
                read_back.push(chars.next().unwrap());
            } else {
                read_back.push(c);
            }
        }
        assert_eq!(read_back, input);
    }
}

#[test]
fn description_with_special_characters_in_the_argument_string() {
    let arguments = spec(Some("it's a\\b"), SampleFormat::U8, 8000, 1).build_sink_arguments();
    assert_eq!(
        arguments,
        "sink_name=esp32-signal-device sink_properties=device.description='it\\'s\\ a\\\\b' format=u8 rate=8000 channels=1"
    );
}

#[test]
fn argument_string_of_the_playback_sink() {
    let arguments =
        spec(Some("ESP32 Signal Reader"), SampleFormat::U8, 44100, 1).build_sink_arguments();
    assert_eq!(
        arguments,
        "sink_name=esp32-signal-device sink_properties=device.description='ESP32\\ Signal\\ Reader' format=u8 rate=44100 channels=1"
    );
}

#[test]
fn argument_string_without_description_keeps_its_place() {
    let arguments = spec(None, SampleFormat::S16le, 48000, 2).build_sink_arguments();
    assert_eq!(arguments, "sink_name=esp32-signal-device  format=s16le rate=48000 channels=2");
}

#[test]
fn argument_string_at_the_limits() {
    let arguments = spec(Some(""), SampleFormat::F32be, u32::MAX, u8::MAX).build_sink_arguments();
    assert_eq!(
        arguments,
        "sink_name=esp32-signal-device sink_properties=device.description='' format=f32be rate=4294967295 channels=255"
    );
    let arguments = spec(None, SampleFormat::S24be, 0, 0).build_sink_arguments();
    assert_eq!(arguments, "sink_name=esp32-signal-device  format=s24be rate=0 channels=0");
}

#[test]
fn argument_string_is_deterministic() {
    let first = spec(Some("a b"), SampleFormat::S32le, 96000, 1).build_sink_arguments();
    let second = spec(Some("a b"), SampleFormat::S32le, 96000, 1).build_sink_arguments();
    assert_eq!(first, second);
}

#[test]
fn format_names() {
    let names = [
        (SampleFormat::U8, "u8"),
        (SampleFormat::S16le, "s16le"),
        (SampleFormat::S16be, "s16be"),
        (SampleFormat::F32le, "f32le"),
        (SampleFormat::F32be, "f32be"),
        (SampleFormat::S32le, "s32le"),
        (SampleFormat::S32be, "s32be"),
        (SampleFormat::S24le, "s24le"),
        (SampleFormat::S24be, "s24be"),
    ];
    for (format, name) in names {
        assert_eq!(SinkSpec::audio_format_to_string(&format), name);
    }
    for (first, first_name) in names {
        for (second, second_name) in names {
            assert_eq!(first == second, first_name == second_name);
        }
    }
}

#[test]
fn decimal_numbers() {
    for (value, text) in [(0u32, "0"), (7, "7"), (10, "10"), (909, "909"), (u32::MAX, "4294967295")]
    {
        let mut out = String::from("n=");
        push_decimal(&mut out, value);
        assert_eq!(out, format!("n={text}"));
        assert_eq!(out, format!("n={value}"));
    }
}

#[test]
fn signed_decimal_numbers() {
    for value in [0i32, 1, -1, 42, -42, -100, i32::MAX, i32::MIN] {
        let mut out = String::new();
        push_signed_decimal(&mut out, value);
        assert_eq!(out, format!("{value}"));
    }
}
