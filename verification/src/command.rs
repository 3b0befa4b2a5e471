//! The sensor's commands: the one table of what each looks like on the wire.

use vstd::prelude::*;

verus! {

/// An operation of the sensor.
#[derive(Debug, Clone, Copy)]
pub enum Command {
    /// Start continuous measurement, without ambient pressure compensation.
    StartContinuous(),
    /// Stop continuous measurement.
    StopContinuous(),
    /// Set the period of continuous measurement, in seconds.
    SetContinuousInterval(u16),
    /// Ask whether a measurement waits in the sensor's buffer.
    GetDataReady(),
    /// Read the measurement that waits in the sensor's buffer.
    ReadMeasurement(),
    /// Enable or disable automatic self-calibration.
    SetAutomaticSelfCalibration(bool),
    /// Set the reference value of forced recalibration, in parts per million.
    SetForcedRecalibration(u16),
    /// Set the temperature offset, in units of 0.01 degrees Celsius.
    SetTemperatureOffset(u16),
    /// Set the altitude to compensate for, in meters above sea level.
    SetAltitude(u16),
    /// Put the sensor back into the state it powers up in.
    SoftReset(),
}

impl Command {
    /// The command's identifier on the wire.
    pub open spec fn spec_command(&self) -> u16 {
        match self {
            Command::StartContinuous() => 0x0010,
            Command::StopContinuous() => 0x0104,
            Command::SetContinuousInterval(_) => 0x4600,
            Command::GetDataReady() => 0x0202,
            Command::ReadMeasurement() => 0x0300,
            Command::SetAutomaticSelfCalibration(_) => 0x5306,
            Command::SetForcedRecalibration(_) => 0x5204,
            Command::SetTemperatureOffset(_) => 0x5403,
            Command::SetAltitude(_) => 0x5102,
            Command::SoftReset() => 0xD304,
        }
    }

    /// The data word that goes out with the command, where it has one.
    pub open spec fn spec_data(&self) -> Option<u16> {
        match self {
            Command::StartContinuous() => Some(0x0000u16),
            Command::SetContinuousInterval(period) => Some(*period),
            Command::SetAutomaticSelfCalibration(enable) => Some(if *enable { 1u16 } else { 0u16 }),
            Command::SetForcedRecalibration(value) => Some(*value),
            Command::SetTemperatureOffset(value) => Some(*value),
            Command::SetAltitude(value) => Some(*value),
            _ => None,
        }
    }

    /// The number of 16-bit words in the sensor's reply.
    pub open spec fn reply_words(&self) -> nat {
        match self {
            Command::GetDataReady() => 1,
            Command::ReadMeasurement() => 6,
            _ => 0,
        }
    }

    /// The number of bytes in the sensor's reply, checksums left out.
    pub open spec fn spec_data_bytes(&self) -> usize {
        (2 * self.reply_words()) as usize
    }

    /// Command identifier for this command.
    #[verifier::when_used_as_spec(spec_command)]
    pub fn command(&self) -> (id: u16)
        ensures
            id == self.spec_command(),
    {
        match self {
            Command::StartContinuous() => 0x0010,
            Command::StopContinuous() => 0x0104,
            Command::SetContinuousInterval(_) => 0x4600,
            Command::GetDataReady() => 0x0202,
            Command::ReadMeasurement() => 0x0300,
            Command::SetAutomaticSelfCalibration(_) => 0x5306,
            Command::SetForcedRecalibration(_) => 0x5204,
            Command::SetTemperatureOffset(_) => 0x5403,
            Command::SetAltitude(_) => 0x5102,
            Command::SoftReset() => 0xD304,
        }
    }

    /// Data to be sent with this command (if any).
    #[verifier::when_used_as_spec(spec_data)]
    pub fn data(&self) -> (word: Option<u16>)
        ensures
            word == self.spec_data(),
    {
        match self {
            Command::StartContinuous() => Some(0x0000),
            Command::SetContinuousInterval(period) => Some(*period),
            Command::SetAutomaticSelfCalibration(false) => Some(0),
            Command::SetAutomaticSelfCalibration(true) => Some(1),
            Command::SetForcedRecalibration(value) => Some(*value),
            Command::SetTemperatureOffset(value) => Some(*value),
            Command::SetAltitude(value) => Some(*value),
            _ => None,
        }
    }

    /// Number of bytes that should be read for this command, excluding CRCs.
    #[verifier::when_used_as_spec(spec_data_bytes)]
    pub fn data_bytes(&self) -> (bytes: usize)
        ensures
            bytes == self.spec_data_bytes(),
    {
        let words: usize = match self {
            Command::GetDataReady() => 1,
            Command::ReadMeasurement() => 6,
            _ => 0,
        };
        words * 2
    }
}

/// No reply is longer than that of a measurement, six words, and only the two
/// queries have a reply at all.
pub proof fn lemma_reply_words(cmd: Command)
    ensures
        cmd.reply_words() <= 6,
        cmd.reply_words() > 0 <==> cmd is GetDataReady || cmd is ReadMeasurement,
        cmd.spec_data_bytes() == 2 * cmd.reply_words(),
{
}

} // verus!
