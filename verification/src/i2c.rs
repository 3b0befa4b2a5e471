//! Frames on the two-wire bus: commands out, checksummed words back.

use crate::crc::{checked, checksummed, high_byte, low_byte, InvalidCRC, SH30CRC};
use crate::error::{read_outcome, write_outcome, Error};
use vstd::prelude::*;
use vstd::slice::slice_subrange;

verus! {

/// Bus address of the sensor.
pub const ADDRESS: u8 = 0x61;

/// The most words that one reply holds: those of a measurement.
pub const MAX_WORDS: usize = 6;

/// One transaction that was asked of a bus, with what the bus said of it.
pub enum Transfer<E> {
    /// `bytes` were to be written to the device at `address`.
    Write { address: u8, bytes: Seq<u8>, result: Result<(), E> },
    /// A buffer was to be filled from the device at `address`; `bytes` is
    /// what the buffer held afterwards.
    Read { address: u8, bytes: Seq<u8>, result: Result<(), E> },
}

impl<E> Transfer<E> {
    /// What the bus said of the transaction.
    pub open spec fn result(self) -> Result<(), E> {
        match self {
            Transfer::Write { result, .. } => result,
            Transfer::Read { result, .. } => result,
        }
    }

    /// The bytes that went out, or that the buffer held afterwards.
    pub open spec fn bytes(self) -> Seq<u8> {
        match self {
            Transfer::Write { bytes, .. } => bytes,
            Transfer::Read { bytes, .. } => bytes,
        }
    }

    /// Whether this is a write of exactly `wanted` to the sensor.
    pub open spec fn is_write_of(self, wanted: Seq<u8>) -> bool {
        self matches Transfer::Write { address, bytes, .. } && address == ADDRESS && bytes
            == wanted
    }

    /// Whether this is a read of `len` bytes from the sensor.
    pub open spec fn is_read_of(self, len: nat) -> bool {
        self matches Transfer::Read { address, bytes, .. } && address == ADDRESS && bytes.len()
            == len
    }
}

/// A blocking two-wire bus that writes bytes to, and reads bytes from, the
/// device at an address. The driver is generic over this interface alone,
/// and asks no promise of an implementation: whatever a call returns and
/// whatever it leaves in the buffer, the driver's contracts say what follows.
pub trait I2cBus {
    /// The bus's own error.
    type Error;

    /// Writes `bytes` to the device at `address` in one transaction.
    fn write(&mut self, address: u8, bytes: &[u8]) -> Result<(), Self::Error>;

    /// Reads from the device at `address` until `buffer` is full.
    fn read(&mut self, address: u8, buffer: &mut [u8]) -> Result<(), Self::Error>;
}

/// A bus together with the record of what was asked of it. The bus is
/// reached through `write` and `read` alone; each makes one call and adds the
/// one entry that describes it, and nothing else changes the record.
struct Traced<I: I2cBus> {
    bus: I,
    trace: Ghost<Seq<Transfer<I::Error>>>,
}

impl<I: I2cBus> Traced<I> {
    /// Every transaction that was asked of the bus so far, oldest first.
    closed spec fn trace(&self) -> Seq<Transfer<I::Error>> {
        self.trace@
    }

    /// Starts the record of `bus`, with nothing on it.
    fn new(bus: I) -> (traced: Self)
        ensures
            traced.trace() == Seq::<Transfer<I::Error>>::empty(),
    {
        Traced { bus, trace: Ghost(Seq::empty()) }
    }

    /// Writes `bytes` to the device at `address` and records it.
    fn write(&mut self, address: u8, bytes: &[u8]) -> (result: Result<(), I::Error>)
        ensures
            final(self).trace() == old(self).trace().push(
                (Transfer::Write { address, bytes: bytes@, result }),
            ),
    {
        let result = self.bus.write(address, bytes);
        proof {
            self.trace@ = self.trace@.push(Transfer::Write { address, bytes: bytes@, result });
        }
        result
    }

    /// Fills `buffer` from the device at `address` and records it.
    fn read(&mut self, address: u8, buffer: &mut [u8]) -> (result: Result<(), I::Error>)
        ensures
            final(self).trace() == old(self).trace().push(
                (Transfer::Read { address, bytes: final(buffer)@, result }),
            ),
    {
        let result = self.bus.read(address, buffer);
        proof {
            self.trace@ = self.trace@.push(Transfer::Read { address, bytes: buffer@, result });
        }
        result
    }
}

/// The frame that carries `command` and, where there is one, a data word:
/// the command's two bytes, more significant first, then the word with its
/// checksum.
pub open spec fn frame(command: u16, data: Option<u16>) -> Seq<u8> {
    let head = seq![high_byte(command), low_byte(command)];
    match data {
        Some(word) => head + checksummed(word),
        None => head,
    }
}

/// The data bytes of a reply: of each group of three bytes the first two, the
/// checksum left out.
pub open spec fn payload(reply: Seq<u8>) -> Seq<u8> {
    Seq::new((reply.len() / 3 * 2) as nat, |i: int| reply[i / 2 * 3 + i % 2])
}

/// The mismatch of the first group of three bytes in `reply` whose checksum
/// does not match its data, if there is such a group.
pub open spec fn first_mismatch(reply: Seq<u8>) -> Option<InvalidCRC>
    decreases reply.len(),
{
    if reply.len() < 3 {
        None
    } else {
        match checked(reply.subrange(0, 3)) {
            Err(mismatch) => Some(mismatch),
            Ok(_) => first_mismatch(reply.skip(3)),
        }
    }
}

/// The checksum mismatch on record after `steps` were asked of the bus: that
/// of the reply that the last of them brought, if it brought one and that
/// held a mismatch; the one on record `before` where nothing was asked.
pub open spec fn mismatch_after<E>(
    steps: Seq<Transfer<E>>,
    before: Option<InvalidCRC>,
) -> Option<InvalidCRC> {
    if steps.len() == 0 {
        before
    } else {
        match steps.last() {
            Transfer::Read { bytes, result: Ok(_), .. } => first_mismatch(bytes),
            _ => None,
        }
    }
}

/// What sending a frame asks of the bus, and what it reports: the one write
/// of the frame to the sensor, and the error of the bus where it gave one.
pub open spec fn send_exchange<E>(
    steps: Seq<Transfer<E>>,
    bytes: Seq<u8>,
    sent: Result<(), Error<E>>,
) -> bool {
    &&& steps.len() == 1
    &&& steps[0].is_write_of(bytes)
    &&& sent == write_outcome(steps[0].result())
}

/// What reading a reply asks of the bus, and what it reports: the one read
/// of `len` bytes from the sensor, and the error of the bus where it gave one.
pub open spec fn read_exchange<E>(
    steps: Seq<Transfer<E>>,
    len: nat,
    read: Result<(), Error<E>>,
) -> bool {
    &&& steps.len() == 1
    &&& steps[0].is_read_of(len)
    &&& read == read_outcome(steps[0].result())
}

/// The sensor's end of a bus: frames commands and unframes replies.
pub struct I2cComm<I: I2cBus> {
    bus: Traced<I>,
    mismatch: Option<InvalidCRC>,
}

impl<I: I2cBus> I2cComm<I> {
    /// Every transaction that was asked of the bus through this handle so
    /// far, oldest first.
    pub closed spec fn trace(&self) -> Seq<Transfer<I::Error>> {
        self.bus.trace()
    }

    /// The transactions that were asked of the bus after `earlier`.
    pub open spec fn since(&self, earlier: &Self) -> Seq<Transfer<I::Error>> {
        self.trace().skip(earlier.trace().len() as int)
    }

    /// The checksum mismatch on record: that of the reply that the last
    /// transaction brought, if it brought one and that held a mismatch.
    pub closed spec fn mismatch(&self) -> Option<InvalidCRC> {
        self.mismatch
    }

    /// Takes the bus that the sensor is on.
    pub fn new(bus: I) -> (comm: Self)
        ensures
            comm.trace() == Seq::<Transfer<I::Error>>::empty(),
            comm.mismatch() is None,
    {
        I2cComm { bus: Traced::new(bus), mismatch: None }
    }

    /// The checksum mismatch in the reply that the last transaction brought,
    /// if it brought one and that held a mismatch. Such a reply is handed on
    /// all the same.
    pub fn crc_error(&self) -> (mismatch: Option<InvalidCRC>)
        ensures
            mismatch == self.mismatch(),
    {
        self.mismatch
    }

    /// Sends the given command and associated data to the sensor.
    /// Includes headers, CRC checksums, and endian handling.
    pub fn send(&mut self, command: u16, data: Option<u16>) -> (sent: Result<(), Error<I::Error>>)
        ensures
            old(self).trace().is_prefix_of(final(self).trace()),
            send_exchange(final(self).since(old(self)), frame(command, data), sent),
            final(self).mismatch() == mismatch_after(
                final(self).since(old(self)),
                old(self).mismatch(),
            ),
    {
        // Space for the command (2 bytes) and, where there is data, the
        // data word (2 bytes) with its checksum (1 byte).
        let mut buffer = [0u8; 5];
        buffer[0] = (command / 256) as u8;
        buffer[1] = (command % 256) as u8;
        let result = match data {
            Some(word) => {
                let tail = SH30CRC::new().add(word);
                buffer[2] = tail[0];
                buffer[3] = tail[1];
                buffer[4] = tail[2];
                assert(buffer@ =~= frame(command, data));
                self.bus.write(ADDRESS, &buffer)
            },
            None => {
                let head = slice_subrange(&buffer, 0, 2);
                assert(head@ =~= frame(command, data));
                self.bus.write(ADDRESS, head)
            },
        };
        self.mismatch = None;
        match result {
            Ok(_) => Ok(()),
            Err(e) => Err(Error::I2cWrite(e)),
        }
    }

    /// Reads a reply from the sensor into `data`, two bytes for each word,
    /// checksums removed. A word whose checksum does not match is handed on
    /// like any other and is no error here; `crc_error` tells of it.
    pub fn read(&mut self, data: &mut [u8]) -> (read: Result<(), Error<I::Error>>)
        requires
            old(data)@.len() % 2 == 0,
            2 <= old(data)@.len() <= 2 * MAX_WORDS,
        ensures
            old(self).trace().is_prefix_of(final(self).trace()),
            read_exchange(final(self).since(old(self)), old(data)@.len() / 2 * 3, read),
            final(data)@ == if read is Ok {
                payload(final(self).since(old(self))[0].bytes())
            } else {
                old(data)@
            },
            final(self).mismatch() == mismatch_after(
                final(self).since(old(self)),
                old(self).mismatch(),
            ),
    {
        let words_requested = data.len() / 2;
        let mut buffer = [0u8; 18];
        let result = {
            let whole: &mut [u8] = &mut buffer;
            let (data_with_crcs, _) = whole.split_at_mut(words_requested * 3);
            self.bus.read(ADDRESS, data_with_crcs)
        };
        // The buffer is of a fixed length, and so is what the bus filled.
        let ghost reply = self.bus.trace().last().bytes();
        assert(buffer@.len() == 18);
        if let Err(e) = result {
            self.mismatch = None;
            return Err(Error::I2cRead(e));
        }
        // Check the checksums: the first that does not match is kept.
        let mut crc = SH30CRC::new();
        let mut crc_err: Option<InvalidCRC> = None;
        let mut i: usize = 0;
        assert(reply.skip(0) =~= reply);
        while i < words_requested && crc_err.is_none()
            invariant
                i <= words_requested <= MAX_WORDS,
                crc.well_formed(),
                reply == buffer@.subrange(0, words_requested * 3),
                first_mismatch(reply) == match crc_err {
                    Some(mismatch) => Some(mismatch),
                    None => first_mismatch(reply.skip(3 * i)),
                },
            decreases
                words_requested - i + if crc_err is None { 1int } else { 0int },
        {
            let chunk = slice_subrange(&buffer, 3 * i, 3 * i + 3);
            proof {
                let rest = reply.skip(3 * i);
                assert(rest.subrange(0, 3) =~= chunk@);
                assert(rest.skip(3) =~= reply.skip(3 * (i + 1)));
            }
            match crc.check(chunk) {
                Ok(_) => {
                    i += 1;
                },
                Err(mismatch) => {
                    crc_err = Some(mismatch);
                },
            }
        }
        self.mismatch = crc_err;
        // Copy the data, checksums left out.
        let mut k: usize = 0;
        while k < words_requested
            invariant
                k <= words_requested <= MAX_WORDS,
                data@.len() == 2 * words_requested,
                reply == buffer@.subrange(0, words_requested * 3),
                forall|j: int| 0 <= j < 2 * k ==> data@[j] == reply[j / 2 * 3 + j % 2],
            decreases words_requested - k,
        {
            data[2 * k] = buffer[3 * k];
            data[2 * k + 1] = buffer[3 * k + 1];
            k += 1;
        }
        Ok(())
    }
}

/// The `i`-th group of three bytes in a reply: a word and its checksum.
pub open spec fn group(reply: Seq<u8>, i: int) -> Seq<u8> {
    reply.subrange(3 * i, 3 * i + 3)
}

/// A frame is two bytes long, or five where it carries a data word.
pub proof fn lemma_frame_len(command: u16, data: Option<u16>)
    ensures
        frame(command, data).len() == if data is Some {
            5nat
        } else {
            2nat
        },
{
}

/// Each word of a reply is checked against its own checksum, whatever the
/// words around it hold: no mismatch is found exactly where every group
/// passes its check, and the mismatch that is found is that of the first
/// group that does not.
pub proof fn lemma_first_mismatch_checks_each_group(reply: Seq<u8>)
    ensures
        match first_mismatch(reply) {
            None => forall|i: int|
                0 <= i < reply.len() / 3 ==> checked(#[trigger] group(reply, i)) is Ok,
            Some(mismatch) => exists|i: int|
                {
                    &&& 0 <= i < reply.len() / 3
                    &&& checked(#[trigger] group(reply, i)) == Err::<u16, InvalidCRC>(mismatch)
                    &&& forall|j: int| 0 <= j < i ==> checked(#[trigger] group(reply, j)) is Ok
                },
        },
    decreases reply.len(),
{
    if reply.len() >= 3 {
        let rest = reply.skip(3);
        assert forall|i: int| 0 <= i < rest.len() / 3 implies group(rest, i) == #[trigger] group(
            reply,
            i + 1,
        ) by {}
        match checked(reply.subrange(0, 3)) {
            Err(mismatch) => {
                assert(0 <= 0 < reply.len() / 3 && checked(group(reply, 0)) == Err::<
                    u16,
                    InvalidCRC,
                >(mismatch));
            },
            Ok(_) => {
                lemma_first_mismatch_checks_each_group(rest);
                match first_mismatch(rest) {
                    None => {
                        assert forall|i: int| 0 <= i < reply.len() / 3 implies checked(
                            #[trigger] group(reply, i),
                        ) is Ok by {
                            if i > 0 {
                                assert(group(rest, i - 1) == group(reply, i - 1 + 1));
                            }
                        }
                    },
                    Some(mismatch) => {
                        let at = choose|i: int|
                            {
                                &&& 0 <= i < rest.len() / 3
                                &&& checked(#[trigger] group(rest, i)) == Err::<u16, InvalidCRC>(
                                    mismatch,
                                )
                                &&& forall|j: int|
                                    0 <= j < i ==> checked(#[trigger] group(rest, j)) is Ok
                            };
                        assert forall|j: int| 0 <= j < at + 1 implies checked(
                            #[trigger] group(reply, j),
                        ) is Ok by {
                            if j > 0 {
                                assert(group(rest, j - 1) == group(reply, j - 1 + 1));
                            }
                        }
                        assert(0 <= at + 1 < reply.len() / 3 && checked(group(reply, at + 1))
                            == Err::<u16, InvalidCRC>(mismatch));
                    },
                }
            },
        }
    }
}

} // verus!
