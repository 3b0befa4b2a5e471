//! The sensor's lifecycle: configure and start, poll for samples, stop.

use crate::command::Command;
use crate::crc::{checksummed, word_of, InvalidCRC};
use crate::error::{write_outcome, Error};
use crate::i2c::{frame, mismatch_after, payload, send_exchange, I2cBus, I2cComm, Transfer};
use vstd::prelude::*;

verus! {

/// Settings when starting to use an SCD30.
#[non_exhaustive]
pub struct SCD30Settings {
    /// Internal polling period of the SCD30, in seconds.
    /// Defaults to 10 seconds; ranges from 2 to 1800 seconds.
    pub period: u64,
}

impl Default for SCD30Settings {
    fn default() -> (settings: Self)
        ensures
            settings.period == 10,
    {
        Self { period: 10 }
    }
}

/// Why a period was refused.
pub const PERIOD_OUT_OF_RANGE: &'static str = "period must be between 2 and 1800 seconds";

/// Whether the sensor accepts `period` seconds as its measurement interval.
pub open spec fn valid_period(period: u64) -> bool {
    2 <= period <= 1800
}

/// An atmospheric sensor sample from the SCD30. Each field holds the bits of
/// an IEEE 754 single precision number, as the sensor sent them.
#[derive(Debug, Copy, Clone, PartialEq, Eq, Structural)]
pub struct Sample {
    /// CO2 concentration in parts per million
    pub co2: u32,
    /// Temperature in degrees Celsius
    pub temperature: u32,
    /// Relative humidity in percent
    pub humidity: u32,
}

/// The 32-bit value whose four bytes, most significant first, start at
/// `at` in `data`.
pub open spec fn be_u32(data: Seq<u8>, at: int) -> u32 {
    (data[at] * 0x100_0000 + data[at + 1] * 0x1_0000 + data[at + 2] * 0x100 + data[at + 3]) as u32
}

/// The sample that the twelve data bytes of a measurement carry: CO2, then
/// temperature, then humidity.
pub open spec fn decoded(data: Seq<u8>) -> Sample {
    Sample { co2: be_u32(data, 0), temperature: be_u32(data, 4), humidity: be_u32(data, 8) }
}

/// Whether the data bytes of a readiness reply say that a measurement waits.
pub open spec fn says_ready(data: Seq<u8>) -> bool {
    word_of(data[0], data[1]) == 1
}

/// The frame that carries `cmd`.
pub open spec fn frame_of(cmd: Command) -> Seq<u8> {
    frame(cmd.spec_command(), cmd.spec_data())
}

/// The number of bytes in the sensor's reply to `cmd` as it arrives: three for
/// each word, the third its checksum.
pub open spec fn reply_len(cmd: Command) -> nat {
    3 * cmd.reply_words()
}

/// What configuring the sensor for `period` asks of the bus, and what it
/// reports: nothing and an invalid argument where the period is out of range;
/// else the interval, then the start of continuous measurement, up to the
/// first write that fails.
pub open spec fn open_exchange<E>(
    steps: Seq<Transfer<E>>,
    period: u64,
    opened: Result<(), Error<E>>,
) -> bool {
    if !valid_period(period) {
        &&& steps.len() == 0
        &&& opened matches Err(Error::InvalidArgument(reason))
        &&& reason@ == PERIOD_OUT_OF_RANGE@
    } else {
        &&& 1 <= steps.len()
        &&& steps[0].is_write_of(frame_of(Command::SetContinuousInterval(period as u16)))
        &&& match steps[0].result() {
            Err(e) => steps.len() == 1 && opened == Err::<(), Error<E>>(Error::I2cWrite(e)),
            Ok(_) => {
                &&& steps.len() == 2
                &&& steps[1].is_write_of(frame_of(Command::StartContinuous()))
                &&& opened == write_outcome(steps[1].result())
            },
        }
    }
}

/// What taking a sample asks of the bus, and what it reports: the readiness
/// query and its one-word reply; where that says ready, the measurement query
/// and its six-word reply. It ends at the first transaction that fails, and
/// with the readiness reply where that does not say ready.
pub open spec fn sample_exchange<E>(
    steps: Seq<Transfer<E>>,
    sample: Result<Sample, Error<E>>,
) -> bool {
    &&& 1 <= steps.len()
    &&& steps[0].is_write_of(frame_of(Command::GetDataReady()))
    &&& match steps[0].result() {
        Err(e) => steps.len() == 1 && sample == Err::<Sample, Error<E>>(Error::I2cWrite(e)),
        Ok(_) => {
            &&& 2 <= steps.len()
            &&& steps[1].is_read_of(reply_len(Command::GetDataReady()))
            &&& match steps[1].result() {
                Err(e) => steps.len() == 2 && sample == Err::<Sample, Error<E>>(Error::I2cRead(e)),
                Ok(_) => if !says_ready(payload(steps[1].bytes())) {
                    steps.len() == 2 && sample == Err::<Sample, Error<E>>(Error::NotReady())
                } else {
                    &&& 3 <= steps.len()
                    &&& steps[2].is_write_of(frame_of(Command::ReadMeasurement()))
                    &&& match steps[2].result() {
                        Err(e) => steps.len() == 3 && sample == Err::<Sample, Error<E>>(
                            Error::I2cWrite(e),
                        ),
                        Ok(_) => {
                            &&& steps.len() == 4
                            &&& steps[3].is_read_of(reply_len(Command::ReadMeasurement()))
                            &&& sample == match steps[3].result() {
                                Err(e) => Err::<Sample, Error<E>>(Error::I2cRead(e)),
                                Ok(_) => Ok(decoded(payload(steps[3].bytes()))),
                            }
                        },
                    }
                },
            }
        },
    }
}

/// What was asked of a bus since `before` is what was asked up to `mid`,
/// then what was asked after `mid`.
proof fn lemma_since_appends<E>(
    before: Seq<Transfer<E>>,
    mid: Seq<Transfer<E>>,
    after: Seq<Transfer<E>>,
)
    requires
        before.is_prefix_of(mid),
        mid.is_prefix_of(after),
    ensures
        before.is_prefix_of(after),
        after.skip(before.len() as int) == mid.skip(before.len() as int) + after.skip(
            mid.len() as int,
        ),
{
    assert(after.skip(before.len() as int) =~= mid.skip(before.len() as int) + after.skip(
        mid.len() as int,
    ));
}

/// Handle to an SCD30 atmospheric sensor package.
pub struct SCD30<I: I2cBus> {
    comm: I2cComm<I>,
    continuous_enabled: bool,
}

impl Sample {
    /// Reads a sample out of the twelve data bytes of a measurement: three
    /// big-endian 32-bit values, CO2, temperature and humidity.
    pub fn decode(data: &[u8; 12]) -> (sample: Sample)
        ensures
            sample == decoded(data@),
    {
        Sample {
            co2: u32_from_be(data[0], data[1], data[2], data[3]),
            temperature: u32_from_be(data[4], data[5], data[6], data[7]),
            humidity: u32_from_be(data[8], data[9], data[10], data[11]),
        }
    }
}

/// The 32-bit value of four bytes, most significant first.
fn u32_from_be(b0: u8, b1: u8, b2: u8, b3: u8) -> (value: u32)
    ensures
        value == b0 * 0x100_0000 + b1 * 0x1_0000 + b2 * 0x100 + b3,
{
    (b0 as u32) * 0x100_0000 + (b1 as u32) * 0x1_0000 + (b2 as u32) * 0x100 + (b3 as u32)
}

/// Whether the two data bytes of a readiness reply say that a measurement
/// waits: the word they carry is 1.
pub fn data_ready(data: &[u8; 2]) -> (ready: bool)
    ensures
        ready == says_ready(data@),
{
    (data[0] as u16) * 256 + (data[1] as u16) == 1
}

impl<I: I2cBus> SCD30<I> {
    /// Every transaction that was asked of the bus so far, oldest first.
    pub closed spec fn trace(&self) -> Seq<Transfer<I::Error>> {
        self.comm.trace()
    }

    /// The transactions that were asked of the bus after `earlier`.
    pub open spec fn since(&self, earlier: &Self) -> Seq<Transfer<I::Error>> {
        self.trace().skip(earlier.trace().len() as int)
    }

    /// Whether the sensor was started and not stopped since.
    pub closed spec fn continuous_enabled(&self) -> bool {
        self.continuous_enabled
    }

    /// The checksum mismatch on record: that of the reply that the last
    /// transaction brought, if it brought one and that held a mismatch.
    pub closed spec fn mismatch(&self) -> Option<InvalidCRC> {
        self.comm.mismatch()
    }

    /// Configures the sensor at the other end of `comm` as specified and
    /// starts continuous measurement. Settings that the sensor would not
    /// accept are refused before anything is sent.
    pub fn configure(comm: &mut I2cComm<I>, settings: &SCD30Settings) -> (configured: Result<
        (),
        Error<I::Error>,
    >)
        ensures
            old(comm).trace().is_prefix_of(final(comm).trace()),
            open_exchange(final(comm).since(old(comm)), settings.period, configured),
            final(comm).mismatch() == mismatch_after(
                final(comm).since(old(comm)),
                old(comm).mismatch(),
            ),
    {
        let ghost before = comm.trace();
        let period = settings.period;
        if !(2 <= period && period <= 1800) {
            return Err(Error::InvalidArgument(PERIOD_OUT_OF_RANGE));
        }
        let interval = Command::SetContinuousInterval(period as u16);
        let first = comm.send(interval.command(), interval.data());
        let ghost mid = comm.trace();
        if let Err(e) = first {
            return Err(e);
        }
        // No ambient pressure compensation.
        let start = Command::StartContinuous();
        let second = comm.send(start.command(), start.data());
        proof {
            lemma_since_appends(before, mid, comm.trace());
        }
        second
    }

    /// Attach to an SCD30 on the bus and configure it as specified.
    pub fn new(bus: I, settings: SCD30Settings) -> (opened: Result<Self, Error<I::Error>>)
        ensures
            !valid_period(settings.period) <==> opened matches Err(Error::InvalidArgument(_)),
            match opened {
                Ok(dev) => {
                    &&& open_exchange(dev.trace(), settings.period, Ok::<(), Error<I::Error>>(()))
                    &&& dev.continuous_enabled()
                    &&& dev.mismatch() is None
                },
                Err(Error::InvalidArgument(reason)) => reason@ == PERIOD_OUT_OF_RANGE@,
                Err(e) => e is I2cWrite,
            },
    {
        let mut comm = I2cComm::new(bus);
        match Self::configure(&mut comm, &settings) {
            Ok(_) => Ok(SCD30 { comm, continuous_enabled: true }),
            Err(e) => Err(e),
        }
    }

    /// Stop continuous measurement. Where the sensor could not be told, the
    /// handle comes back with the error, as it was but for the failed write.
    pub fn stop(self) -> (stopped: Result<(), (Error<I::Error>, Self)>)
        ensures
            stopped matches Err((e, dev)) ==> {
                &&& self.trace().is_prefix_of(dev.trace())
                &&& send_exchange(
                    dev.since(&self),
                    frame_of(Command::StopContinuous()),
                    Err::<(), Error<I::Error>>(e),
                )
                &&& dev.continuous_enabled() == self.continuous_enabled()
                &&& dev.mismatch() is None
            },
    {
        let mut dev = self;
        let sent = dev.run_command(Command::StopContinuous());
        dev.finish_stop(sent)
    }

    /// What stopping hands back for what came of sending the stop command:
    /// nothing where it went through, and the handle is then given up; else
    /// the error together with the handle as it is.
    pub open spec fn stop_outcome(self, sent: Result<(), Error<I::Error>>) -> Result<
        (),
        (Error<I::Error>, Self),
    > {
        match sent {
            Ok(_) => Ok(()),
            Err(e) => Err((e, self)),
        }
    }

    /// Ends a stop once the stop command was handed to the bus: where `sent`
    /// says that it went through, the handle is given up; else it comes back
    /// unchanged with the error.
    pub fn finish_stop(self, sent: Result<(), Error<I::Error>>) -> (stopped: Result<
        (),
        (Error<I::Error>, Self),
    >)
        ensures
            stopped == self.stop_outcome(sent),
    {
        match sent {
            Ok(_) => {
                let mut dev = self;
                dev.continuous_enabled = false;
                Ok(())
            },
            Err(e) => Err((e, self)),
        }
    }

    /// Whether the sensor was started and not stopped since.
    pub fn is_continuous(&self) -> (enabled: bool)
        ensures
            enabled == self.continuous_enabled(),
    {
        self.continuous_enabled
    }

    /// The checksum mismatch in the reply that the last transaction brought,
    /// if it brought one and that held a mismatch. Such a reply is decoded
    /// all the same; a caller that will not have it can turn the mismatch
    /// into `Error::Crc`.
    pub fn crc_error(&self) -> (mismatch: Option<InvalidCRC>)
        ensures
            mismatch == self.mismatch(),
    {
        self.comm.crc_error()
    }

    /// Acquire a sample from the SCD30.
    ///
    /// If a sample is not immediately available, returns a NotReady error.
    pub fn sample(&mut self) -> (sample: Result<Sample, Error<I::Error>>)
        ensures
            old(self).trace().is_prefix_of(final(self).trace()),
            sample_exchange(final(self).since(old(self)), sample),
            final(self).mismatch() == mismatch_after(
                final(self).since(old(self)),
                old(self).mismatch(),
            ),
            final(self).continuous_enabled() == old(self).continuous_enabled(),
    {
        let ghost t0 = self.comm.trace();
        let mut ready = [0u8; 2];
        if let Err(e) = self.run_command(Command::GetDataReady()) {
            return Err(e);
        }
        let ghost t1 = self.comm.trace();
        let got = self.comm.read(&mut ready);
        let ghost t2 = self.comm.trace();
        proof {
            lemma_since_appends(t0, t1, t2);
        }
        if let Err(e) = got {
            return Err(e);
        }
        if !data_ready(&ready) {
            return Err(Error::NotReady());
        }
        let mut data = [0u8; 12];
        let asked = self.run_command(Command::ReadMeasurement());
        let ghost t3 = self.comm.trace();
        proof {
            lemma_since_appends(t0, t2, t3);
        }
        if let Err(e) = asked {
            return Err(e);
        }
        let got = self.comm.read(&mut data);
        let ghost t4 = self.comm.trace();
        proof {
            lemma_since_appends(t0, t3, t4);
        }
        if let Err(e) = got {
            return Err(e);
        }
        // Interpret the sample.
        // Per the datasheet (table 2), the order is "CO2", "temp", "humidity",
        // each as a big-endian u32; we've already removed CRCs.
        Ok(Sample::decode(&data))
    }

    /// Run a command, without getting any data back.
    fn run_command(&mut self, cmd: Command) -> (ran: Result<(), Error<I::Error>>)
        ensures
            old(self).trace().is_prefix_of(final(self).trace()),
            send_exchange(final(self).since(old(self)), frame_of(cmd), ran),
            final(self).mismatch() == mismatch_after(
                final(self).since(old(self)),
                old(self).mismatch(),
            ),
            final(self).continuous_enabled() == old(self).continuous_enabled(),
    {
        self.comm.send(cmd.command(), cmd.data())
    }
}

/// A period outside the sensor's range is refused and nothing is asked of
/// the bus.
pub proof fn lemma_invalid_period_sends_nothing<E>(
    steps: Seq<Transfer<E>>,
    period: u64,
    opened: Result<(), Error<E>>,
)
    requires
        open_exchange(steps, period, opened),
        !valid_period(period),
    ensures
        steps.len() == 0,
        opened matches Err(Error::InvalidArgument(_)),
{
}

/// Opening succeeds only by two writes that the bus took, in this order: the
/// measurement interval with its checksum, then the start of continuous
/// measurement with the checksummed word zero.
pub proof fn lemma_open_sends_interval_then_start<E>(
    steps: Seq<Transfer<E>>,
    period: u64,
    opened: Result<(), Error<E>>,
)
    requires
        open_exchange(steps, period, opened),
        opened is Ok,
    ensures
        valid_period(period),
        steps.len() == 2,
        steps[0].is_write_of(seq![0x46u8, 0x00u8] + checksummed(period as u16)),
        steps[1].is_write_of(seq![0x00u8, 0x10u8] + checksummed(0)),
        steps[0].result() is Ok,
        steps[1].result() is Ok,
{
}

/// Taking a sample reports that none is ready exactly where the readiness
/// query and its reply went through and the reply does not say ready; the
/// measurement is then not asked for.
pub proof fn lemma_not_ready_asks_no_measurement<E>(
    steps: Seq<Transfer<E>>,
    sample: Result<Sample, Error<E>>,
)
    requires
        sample_exchange(steps, sample),
    ensures
        sample matches Err(Error::NotReady()) <==> steps.len() >= 2 && steps[0].result() is Ok
            && steps[1].result() is Ok && !says_ready(payload(steps[1].bytes())),
        sample matches Err(Error::NotReady()) ==> steps.len() == 2,
{
}

} // verus!
