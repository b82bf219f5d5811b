//! The virtual sink: how it is described to the audio server, and the
//! protocol that loads it, runs a guarded body and unloads it again.

use vstd::prelude::*;

verus! {

/// `String::push` appends the given character to the end of the string.
pub assume_specification[ String::push ](text: &mut String, c: char)
    ensures
        final(text)@ == old(text)@.push(c),
;

/// The characters that the audio server's argument syntax gives a meaning
/// to: quote, double quote, backslash and space.
pub open spec fn is_special(c: char) -> bool {
    c == '\'' || c == '"' || c == '\\' || c == ' '
}

/// One character as it stands in an argument string: a special character
/// behind a backslash, any other as it is.
pub open spec fn escaped_char(c: char) -> Seq<char> {
    if is_special(c) {
        seq!['\\', c]
    } else {
        seq![c]
    }
}

/// A text as it stands in an argument string: every character escaped on
/// its own, in order.
pub open spec fn escaped(input: Seq<char>) -> Seq<char>
    decreases input.len(),
{
    if input.len() == 0 {
        Seq::empty()
    } else {
        escaped(input.drop_last()) + escaped_char(input.last())
    }
}

/// What the audio server reads back from an escaped text: a backslash is
/// dropped and the character behind it taken as it is.
pub open spec fn unescaped(text: Seq<char>) -> Seq<char>
    decreases text.len(),
{
    if text.len() == 0 {
        Seq::empty()
    } else if text[0] == '\\' && text.len() >= 2 {
        seq![text[1]] + unescaped(text.skip(2))
    } else {
        seq![text[0]] + unescaped(text.skip(1))
    }
}

/// Escaping goes character by character: the escaped form of a
/// concatenation is the concatenation of the escaped forms.
pub proof fn lemma_escaped_concat(first: Seq<char>, second: Seq<char>)
    ensures
        escaped(first + second) == escaped(first) + escaped(second),
    decreases second.len(),
{
    if second.len() == 0 {
        assert(first + second =~= first);
        assert(escaped(first) + escaped(second) =~= escaped(first));
    } else {
        assert((first + second).drop_last() =~= first + second.drop_last());
        assert((first + second).last() == second.last());
        lemma_escaped_concat(first, second.drop_last());
        assert(escaped(first + second) =~= escaped(first) + escaped(second));
    }
}

/// Escaping round-trips: reading an escaped text back gives the text.
pub proof fn lemma_escape_round_trip(input: Seq<char>)
    ensures
        unescaped(escaped(input)) == input,
    decreases input.len(),
{
    if input.len() > 0 {
        let head = seq![input[0]];
        let tail = input.skip(1);
        assert(input =~= head + tail);
        lemma_escaped_concat(head, tail);
        assert(head.drop_last() =~= Seq::<char>::empty());
        assert(escaped(head) =~= escaped_char(input[0])) by {
            reveal_with_fuel(escaped, 2);
        }
        lemma_escape_round_trip(tail);
        let text = escaped(input);
        assert(text =~= escaped_char(input[0]) + escaped(tail));
        if is_special(input[0]) {
            assert(text.skip(2) =~= escaped(tail));
        } else {
            assert(text.skip(1) =~= escaped(tail));
        }
        assert(unescaped(text) =~= head + tail);
    }
}

/// A text without special characters is not altered by escaping.
pub proof fn lemma_plain_text_unaltered(input: Seq<char>)
    requires
        forall|at: int| 0 <= at < input.len() ==> !is_special(#[trigger] input[at]),
    ensures
        escaped(input) == input,
    decreases input.len(),
{
    if input.len() > 0 {
        lemma_plain_text_unaltered(input.drop_last());
        assert(input =~= input.drop_last() + seq![input.last()]);
    }
}

/// The sample formats that a virtual sink can be asked for.
#[derive(Clone, Copy, Debug, PartialEq, Eq, Structural)]
pub enum SampleFormat {
    U8,
    S16le,
    S16be,
    F32le,
    F32be,
    S32le,
    S32be,
    S24le,
    S24be,
}

/// The name under which the audio server knows a sample format.
pub open spec fn format_name(format: SampleFormat) -> Seq<char> {
    match format {
        SampleFormat::U8 => "u8"@,
        SampleFormat::S16le => "s16le"@,
        SampleFormat::S16be => "s16be"@,
        SampleFormat::F32le => "f32le"@,
        SampleFormat::F32be => "f32be"@,
        SampleFormat::S32le => "s32le"@,
        SampleFormat::S32be => "s32be"@,
        SampleFormat::S24le => "s24le"@,
        SampleFormat::S24be => "s24be"@,
    }
}

/// No two sample formats share a name, so the format can be read back from
/// an argument string.
pub proof fn lemma_format_names_distinct(first: SampleFormat, second: SampleFormat)
    requires
        first != second,
    ensures
        format_name(first) != format_name(second),
{
    reveal_strlit("u8");
    reveal_strlit("s16le");
    reveal_strlit("s16be");
    reveal_strlit("f32le");
    reveal_strlit("f32be");
    reveal_strlit("s32le");
    reveal_strlit("s32be");
    reveal_strlit("s24le");
    reveal_strlit("s24be");
    let a = format_name(first);
    let b = format_name(second);
    if a.len() == b.len() {
        assert(a[0] != b[0] || a[1] != b[1] || a[3] != b[3]);
    }
}

/// The decimal digit for a value below ten.
pub open spec fn digit_char(digit: int) -> char {
    if digit == 0 {
        '0'
    } else if digit == 1 {
        '1'
    } else if digit == 2 {
        '2'
    } else if digit == 3 {
        '3'
    } else if digit == 4 {
        '4'
    } else if digit == 5 {
        '5'
    } else if digit == 6 {
        '6'
    } else if digit == 7 {
        '7'
    } else if digit == 8 {
        '8'
    } else {
        '9'
    }
}

/// A number written in decimal, without sign or leading zeros.
pub open spec fn decimal(value: nat) -> Seq<char>
    decreases value,
{
    if value < 10 {
        seq![digit_char(value as int)]
    } else {
        decimal(value / 10).push(digit_char((value % 10) as int))
    }
}

fn digit(value: u32) -> (c: char)
    requires
        value < 10,
    ensures
        c == digit_char(value as int),
{
    match value {
        0 => '0',
        1 => '1',
        2 => '2',
        3 => '3',
        4 => '4',
        5 => '5',
        6 => '6',
        7 => '7',
        8 => '8',
        _ => '9',
    }
}

/// Appends a number in decimal to a text.
pub fn push_decimal(out: &mut String, value: u32)
    ensures
        final(out)@ == old(out)@ + decimal(value as nat),
    decreases value,
{
    if value >= 10 {
        push_decimal(out, value / 10);
    }
    out.push(digit(value % 10));
    assert(final(out)@ =~= old(out)@ + decimal(value as nat));
}

/// A number written in decimal, with a minus sign where it is negative.
pub open spec fn signed_decimal(value: int) -> Seq<char> {
    if value < 0 {
        seq!['-'] + decimal((-value) as nat)
    } else {
        decimal(value as nat)
    }
}

/// Appends a number in decimal to a text, with a minus sign where it is
/// negative.
pub fn push_signed_decimal(out: &mut String, value: i32)
    ensures
        final(out)@ == old(out)@ + signed_decimal(value as int),
{
    if value < 0 {
        out.push('-');
        let magnitude: u32 = if value == i32::MIN {
            0x8000_0000
        } else {
            (-value) as u32
        };
        push_decimal(out, magnitude);
        assert(final(out)@ =~= old(out)@ + signed_decimal(value as int));
    } else {
        push_decimal(out, value as u32);
    }
}

/// The format, rate and channel count of the audio that a sink takes.
#[derive(Clone, Copy, Debug, PartialEq, Eq, Structural)]
pub struct AudioSpec {
    pub format: SampleFormat,
    pub rate: u32,
    pub channels: u8,
}

/// What a virtual sink is created from: its name, the description shown to
/// the user, and the audio it takes.
#[derive(Debug, PartialEq, Eq)]
pub struct SinkSpec {
    pub sink_name: String,
    pub device_description: Option<String>,
    pub audio_format: AudioSpec,
}

/// The `sink_properties` entry of an argument string: empty without a
/// description, else the escaped description between single quotes.
pub open spec fn sink_properties(description: Option<Seq<char>>) -> Seq<char> {
    match description {
        Some(text) => "sink_properties=device.description='"@ + escaped(text) + "'"@,
        None => Seq::empty(),
    }
}

/// The argument string of a sink: its five entries, separated by one space
/// each.
pub open spec fn sink_arguments(
    sink_name: Seq<char>,
    description: Option<Seq<char>>,
    audio_format: AudioSpec,
) -> Seq<char> {
    "sink_name="@ + sink_name + " "@ + sink_properties(description) + " "@ + "format="@
        + format_name(audio_format.format) + " "@ + "rate="@ + decimal(audio_format.rate as nat)
        + " "@ + "channels="@ + decimal(audio_format.channels as nat)
}

impl SinkSpec {
    /// The description as a text, where there is one.
    pub open spec fn description(&self) -> Option<Seq<char>> {
        match self.device_description {
            Some(text) => Some(text@),
            None => None,
        }
    }

    /// Escapes a text for the audio server's argument syntax.
    pub fn pa_escape_string(input: &str) -> (out: String)
        ensures
            out@ == escaped(input@),
    {
        broadcast use vstd::string::axiom_spec_iter;

        let mut out = String::new();
        for c in it: input.chars()
            invariant
                it.seq() == input@,
                out@ == escaped(input@.take(it.index() as int)),
        {
            assert(input@.take(it.index() + 1).drop_last() == input@.take(it.index() as int));
            if c == '\'' || c == '"' || c == '\\' || c == ' ' {
                out.push('\\');
            }
            out.push(c);
        }
        assert(input@.take(input@.len() as int) == input@);
        out
    }

    /// The name under which the audio server knows a sample format.
    pub fn audio_format_to_string(format: &SampleFormat) -> (name: &'static str)
        ensures
            name@ == format_name(*format),
    {
        match format {
            SampleFormat::U8 => "u8",
            SampleFormat::S16le => "s16le",
            SampleFormat::S16be => "s16be",
            SampleFormat::F32le => "f32le",
            SampleFormat::F32be => "f32be",
            SampleFormat::S32le => "s32le",
            SampleFormat::S32be => "s32be",
            SampleFormat::S24le => "s24le",
            SampleFormat::S24be => "s24be",
        }
    }

    /// Renders the sink as the argument string that the audio server's
    /// null-sink module takes.
    pub fn build_sink_arguments(&self) -> (arguments: String)
        ensures
            arguments@ == sink_arguments(self.sink_name@, self.description(), self.audio_format),
    {
        let mut out = String::new();
        out.append("sink_name=");
        out.append(self.sink_name.as_str());
        out.append(" ");
        match &self.device_description {
            Some(description) => {
                out.append("sink_properties=device.description='");
                let escaped_description = Self::pa_escape_string(description.as_str());
                out.append(escaped_description.as_str());
                out.append("'");
            },
            None => {},
        }
        out.append(" ");
        out.append("format=");
        out.append(Self::audio_format_to_string(&self.audio_format.format));
        out.append(" ");
        out.append("rate=");
        push_decimal(&mut out, self.audio_format.rate);
        out.append(" ");
        out.append("channels=");
        push_decimal(&mut out, self.audio_format.channels as u32);
        assert(out@ =~= sink_arguments(
            self.sink_name@,
            self.description(),
            self.audio_format,
        ));
        out
    }
}

} // verus!
