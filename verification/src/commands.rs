//! The two commands: what each of them asks of the serial line and of its
//! output, and how a run is reported to the one who started it.

pub mod pulse_stream;
pub mod read_wav;

use crate::stream::StreamEnd;
use vstd::prelude::*;

verus! {

/// How the serial line to the device is set up.
#[derive(Clone, Copy, Debug, PartialEq, Eq, Structural)]
pub struct SerialSettings {
    pub baud_rate: u32,
    pub data_bits: u8,
    pub stop_bits: u8,
    pub parity: bool,
    pub flow_control: bool,
    pub timeout_seconds: u64,
}

/// The settings of the serial line at a given speed: eight data bits, one
/// stop bit, neither parity nor flow control, and reads that give up after a
/// second.
pub fn serial_settings(baud_rate: u32) -> (settings: SerialSettings)
    ensures
        settings == (SerialSettings {
            baud_rate,
            data_bits: 8,
            stop_bits: 1,
            parity: false,
            flow_control: false,
            timeout_seconds: 1,
        }),
{
    SerialSettings {
        baud_rate,
        data_bits: 8,
        stop_bits: 1,
        parity: false,
        flow_control: false,
        timeout_seconds: 1,
    }
}

/// How a command came to its end, as far as the exit status tells.
#[derive(Clone, Copy, Debug, PartialEq, Eq, Structural)]
pub enum CommandEnd {
    /// The command ran to its end without being interrupted.
    Completed,
    /// The input was interrupted and the interruption handled in good order.
    Interrupted,
    /// The command gave up before it started.
    Refused,
}

/// The exit status of a command, where `signal` is the number of the
/// interrupt signal: 0 after completion, 128 plus the signal's number after a
/// handled interruption, 1 where the command gave up.
pub fn exit_status(end: CommandEnd, signal: u8) -> (status: u8)
    requires
        signal < 128,
    ensures
        status == match end {
            CommandEnd::Completed => 0,
            CommandEnd::Interrupted => 128 + signal,
            CommandEnd::Refused => 1,
        },
{
    match end {
        CommandEnd::Completed => 0,
        CommandEnd::Interrupted => 128 + signal,
        CommandEnd::Refused => 1,
    }
}

/// What a command hands back once its stream is over: the exit status of a
/// handled interruption where the stream was cancelled, else the failure
/// that ended it. A stream ends in no other way.
pub fn command_result<E>(end: StreamEnd<E>, signal: u8) -> (result: Result<u8, E>)
    requires
        signal < 128,
    ensures
        result == match end {
            StreamEnd::Cancelled => Ok::<u8, E>((128 + signal) as u8),
            StreamEnd::Failed(error) => Err::<u8, E>(error),
        },
{
    match end {
        StreamEnd::Cancelled => Ok(exit_status(CommandEnd::Interrupted, signal)),
        StreamEnd::Failed(error) => Err(error),
    }
}

} // verus!
