//! The checksum that guards every 16-bit word on the wire.
//!
//! It is the cyclic redundancy check of the word's two bytes with the
//! polynomial 0x31, a register of eight bits that starts at 0xFF, no
//! reflection and no final xor. [`crc8`] defines it bit by bit; the bytes are
//! digested at run time by an engine of the crate `crc_any`.

use crc_any::CRCu8;
use vstd::prelude::*;
use vstd::slice::slice_subrange;

verus! {

/// Generator polynomial of the sensor's checksum, x^8 + x^5 + x^4 + 1.
pub const CRC_POLY: u8 = 0x31;

/// Width of the checksum in bits.
pub const CRC_BITS: u8 = 8;

/// Value of the checksum register before the first byte.
pub const CRC_INITIAL: u8 = 0xFF;

/// Value folded into the register at the end: none.
pub const CRC_FINAL_XOR: u8 = 0x00;

/// Whether bits are taken least significant first: they are not.
pub const CRC_REFLECT: bool = false;

/// One shift of an 8-bit checksum register: the top bit leaves, and where it
/// was set the polynomial is folded in.
pub open spec fn crc8_shift(poly: u8, reg: u8) -> u8 {
    if reg & 0x80 == 0 {
        reg << 1
    } else {
        (reg << 1) ^ poly
    }
}

/// The register after one more byte: the byte is folded in, then the register
/// shifts once for each of its eight bits.
pub open spec fn crc8_byte(poly: u8, reg: u8, byte: u8) -> u8 {
    let r0 = reg ^ byte;
    let r1 = crc8_shift(poly, r0);
    let r2 = crc8_shift(poly, r1);
    let r3 = crc8_shift(poly, r2);
    let r4 = crc8_shift(poly, r3);
    let r5 = crc8_shift(poly, r4);
    let r6 = crc8_shift(poly, r5);
    let r7 = crc8_shift(poly, r6);
    crc8_shift(poly, r7)
}

/// The register after all of `data`, starting from `initial`.
pub open spec fn crc8_register(poly: u8, initial: u8, data: Seq<u8>) -> u8
    decreases data.len(),
{
    if data.len() == 0 {
        initial
    } else {
        crc8_byte(poly, crc8_register(poly, initial, data.drop_last()), data.last())
    }
}

/// The 8-bit, unreflected cyclic redundancy check of `data`.
pub open spec fn crc8(poly: u8, initial: u8, final_xor: u8, data: Seq<u8>) -> u8 {
    crc8_register(poly, initial, data) ^ final_xor
}

/// The sensor's checksum of `data`.
pub open spec fn sensor_crc(data: Seq<u8>) -> u8 {
    crc8(CRC_POLY, CRC_INITIAL, CRC_FINAL_XOR, data)
}

/// The more significant byte of a word.
pub open spec fn high_byte(word: u16) -> u8 {
    (word / 256) as u8
}

/// The less significant byte of a word.
pub open spec fn low_byte(word: u16) -> u8 {
    (word % 256) as u8
}

/// The word whose bytes, more significant first, are `high` and `low`.
pub open spec fn word_of(high: u8, low: u8) -> u16 {
    (high * 256 + low) as u16
}

/// A word as it travels on the wire: its two bytes, more significant first,
/// then the checksum of those two bytes.
pub open spec fn checksummed(word: u16) -> Seq<u8> {
    seq![
        high_byte(word),
        low_byte(word),
        sensor_crc(seq![high_byte(word), low_byte(word)]),
    ]
}

/// What checking the first three bytes of `raw` gives: the word they carry
/// where the third byte is the checksum of the first two, else the mismatch.
pub open spec fn checked(raw: Seq<u8>) -> Result<u16, InvalidCRC> {
    let computed = sensor_crc(raw.subrange(0, 2));
    if computed == raw[2] {
        Ok(word_of(raw[0], raw[1]))
    } else {
        Err(InvalidCRC { computed, received: raw[2] })
    }
}

/// A checksum that did not match: the one computed over the two data bytes
/// and the one that arrived with them.
#[derive(Debug, Copy, Clone, PartialEq, Eq, Structural)]
pub struct InvalidCRC {
    pub computed: u8,
    pub received: u8,
}

/// The checksum engine `CRCu8` of `crc_any`. Nothing inside it is visible
/// here: `crc_params` and `crc_digested` stand for what it holds.
#[verifier::external_type_specification]
#[verifier::external_body]
pub struct ExCRCu8(CRCu8);

/// The parameters that a checksum engine of `crc_any` was made with, in the
/// order in which `CRCu8::create_crc` takes them: polynomial, width in bits,
/// initial register, final xor, reflection.
pub uninterp spec fn crc_params(engine: CRCu8) -> (u8, u8, u8, u8, bool);

/// The bytes that a checksum engine of `crc_any` has digested since it was
/// made or last reset, oldest first.
pub uninterp spec fn crc_digested(engine: CRCu8) -> Seq<u8>;

/// `CRCu8::create_crc` hands out an engine with the given parameters that has
/// digested nothing yet. It must not be called with a width outside 1 to 8.
pub assume_specification[ CRCu8::create_crc ](
    poly: u8,
    bits: u8,
    initial: u8,
    final_xor: u8,
    reflect: bool,
) -> (engine: CRCu8)
    requires
        0 < bits <= 8,
    ensures
        crc_params(engine) == (poly, bits, initial, final_xor, reflect),
        crc_digested(engine) == Seq::<u8>::empty(),
;

/// `CRCu8::reset` puts the register back to its initial value: the engine
/// keeps its parameters and is as if it had digested nothing.
pub assume_specification[ CRCu8::reset ](engine: &mut CRCu8)
    ensures
        crc_params(*final(engine)) == crc_params(*old(engine)),
        crc_digested(*final(engine)) == Seq::<u8>::empty(),
;

/// `CRCu8::get_crc` reads the checksum of what was digested and leaves the
/// engine as it is. For an engine of width 8 without reflection the checksum
/// is `crc8` of the engine's parameters and the digested bytes: `crc_any`
/// keeps a table of `crc8_byte` for such an engine, steps the register
/// through it once for each byte, and xors the final value in at the end.
/// Of engines of another width, or with reflection, nothing is claimed.
pub assume_specification[ CRCu8::get_crc ](engine: &CRCu8) -> (crc: u8)
    ensures
        ({
            let (poly, bits, initial, final_xor, reflect) = crc_params(*engine);
            bits == 8 && !reflect ==> crc == crc8(poly, initial, final_xor, crc_digested(*engine))
        }),
;

/// `CRCu8::digest` takes the bytes of `data` into the register one after the
/// other: the engine keeps its parameters and has digested `data` more.
#[verifier::external_body]
fn digest(engine: &mut CRCu8, data: &[u8])
    ensures
        crc_params(*final(engine)) == crc_params(*old(engine)),
        crc_digested(*final(engine)) == crc_digested(*old(engine)) + data@,
{
    engine.digest(data);
}

/// Checksum computer for the words that the sensor sends and receives.
pub struct SH30CRC(CRCu8);

impl SH30CRC {
    /// Whether the engine inside was made with the sensor's parameters.
    pub closed spec fn well_formed(&self) -> bool {
        crc_params(self.0) == (CRC_POLY, CRC_BITS, CRC_INITIAL, CRC_FINAL_XOR, CRC_REFLECT)
    }

    /// Creates a checksum computer with the sensor's parameters.
    pub fn new() -> (engine: Self)
        ensures
            engine.well_formed(),
    {
        SH30CRC(CRCu8::create_crc(CRC_POLY, CRC_BITS, CRC_INITIAL, CRC_FINAL_XOR, CRC_REFLECT))
    }

    /// Adds the checksum to `word` and gives the three bytes in bus order.
    pub fn add(&mut self, word: u16) -> (bytes: [u8; 3])
        requires
            old(self).well_formed(),
        ensures
            final(self).well_formed(),
            bytes@ == checksummed(word),
    {
        let word_be: [u8; 2] = [(word / 256) as u8, (word % 256) as u8];
        self.0.reset();
        digest(&mut self.0, &word_be);
        let crc = self.0.get_crc();
        [word_be[0], word_be[1], crc]
    }

    /// Checks the checksum in the third byte of `raw` against the first two
    /// bytes and gives the word that they carry.
    pub fn check(&mut self, raw: &[u8]) -> (word: Result<u16, InvalidCRC>)
        requires
            old(self).well_formed(),
            raw@.len() >= 3,
        ensures
            final(self).well_formed(),
            word == checked(raw@),
    {
        self.0.reset();
        digest(&mut self.0, slice_subrange(raw, 0, 2));
        let computed = self.0.get_crc();
        let received = raw[2];
        if computed != received {
            Err(InvalidCRC { computed, received })
        } else {
            Ok((raw[0] as u16) * 256 + (raw[1] as u16))
        }
    }
}

/// The checksum of a two-byte sequence is two steps from the initial register.
proof fn lemma_sensor_crc_of_pair(high: u8, low: u8)
    ensures
        sensor_crc(seq![high, low]) == crc8_byte(
            CRC_POLY,
            crc8_byte(CRC_POLY, CRC_INITIAL, high),
            low,
        ),
{
    let data = seq![high, low];
    reveal_with_fuel(crc8_register, 3);
    let reg = crc8_register(CRC_POLY, CRC_INITIAL, data);
    assert(reg ^ 0x00u8 == reg) by (bit_vector);
}

/// The definition agrees with the example of the sensor's data sheet: the
/// word 0xBEEF has the checksum 0x92.
pub proof fn lemma_datasheet_example()
    ensures
        sensor_crc(seq![0xBEu8, 0xEFu8]) == 0x92,
{
    lemma_sensor_crc_of_pair(0xBE, 0xEF);
    assert(crc8_byte(0x31u8, crc8_byte(0x31u8, 0xFFu8, 0xBEu8), 0xEFu8) == 0x92u8) by (bit_vector);
}

/// A word that was given its checksum passes the check and comes back unchanged.
pub proof fn lemma_check_accepts_added(word: u16)
    ensures
        checked(checksummed(word)) == Ok::<u16, InvalidCRC>(word),
{
    let wire = checksummed(word);
    assert(wire.subrange(0, 2) =~= seq![high_byte(word), low_byte(word)]);
}

/// `wire` with the bit at place `bit` turned over, the places counted from
/// the least significant bit of the first byte.
pub open spec fn with_bit_flipped(wire: Seq<u8>, bit: nat) -> Seq<u8> {
    wire.update((bit / 8) as int, wire[(bit / 8) as int] ^ (1u8 << (bit % 8) as u8))
}

/// With an odd polynomial, registers that differ still differ after a shift.
proof fn lemma_shift_keeps_apart(poly: u8, a: u8, b: u8)
    requires
        poly & 1 == 1,
        a != b,
    ensures
        crc8_shift(poly, a) != crc8_shift(poly, b),
{
    assert(crc8_shift(poly, a) != crc8_shift(poly, b)) by (bit_vector)
        requires
            poly & 1 == 1,
            a != b,
    ;
}

/// With an odd polynomial, two registers that differ once their bytes are
/// folded in still differ after the eight shifts of the byte.
proof fn lemma_byte_keeps_apart(poly: u8, a: u8, x: u8, b: u8, y: u8)
    requires
        poly & 1 == 1,
        a ^ x != b ^ y,
    ensures
        crc8_byte(poly, a, x) != crc8_byte(poly, b, y),
{
    let a1 = crc8_shift(poly, a ^ x);
    let b1 = crc8_shift(poly, b ^ y);
    lemma_shift_keeps_apart(poly, a ^ x, b ^ y);
    let a2 = crc8_shift(poly, a1);
    let b2 = crc8_shift(poly, b1);
    lemma_shift_keeps_apart(poly, a1, b1);
    let a3 = crc8_shift(poly, a2);
    let b3 = crc8_shift(poly, b2);
    lemma_shift_keeps_apart(poly, a2, b2);
    let a4 = crc8_shift(poly, a3);
    let b4 = crc8_shift(poly, b3);
    lemma_shift_keeps_apart(poly, a3, b3);
    let a5 = crc8_shift(poly, a4);
    let b5 = crc8_shift(poly, b4);
    lemma_shift_keeps_apart(poly, a4, b4);
    let a6 = crc8_shift(poly, a5);
    let b6 = crc8_shift(poly, b5);
    lemma_shift_keeps_apart(poly, a5, b5);
    let a7 = crc8_shift(poly, a6);
    let b7 = crc8_shift(poly, b6);
    lemma_shift_keeps_apart(poly, a6, b6);
    lemma_shift_keeps_apart(poly, a7, b7);
}

/// No single bit of a checksummed word can turn over unnoticed, in the data
/// or in the checksum: the check then reports a mismatch.
pub proof fn lemma_check_catches_flipped_bit(word: u16, bit: nat)
    requires
        bit < 24,
    ensures
        checked(with_bit_flipped(checksummed(word), bit)) is Err,
{
    let high = high_byte(word);
    let low = low_byte(word);
    let crc = sensor_crc(seq![high, low]);
    let k = (bit % 8) as u8;
    let mask = 1u8 << k;
    let damaged = with_bit_flipped(checksummed(word), bit);
    assert(mask != 0) by (bit_vector)
        requires
            k < 8,
            mask == 1u8 << k,
    ;
    assert(CRC_POLY & 1 == 1) by (bit_vector)
        requires
            CRC_POLY == 0x31u8,
    ;
    lemma_sensor_crc_of_pair(high, low);
    let mid = crc8_byte(CRC_POLY, CRC_INITIAL, high);
    if bit / 8 == 0 {
        // The damage is in the first byte: the registers part there, and
        // the second byte cannot bring them together again.
        let bad = high ^ mask;
        assert(damaged.subrange(0, 2) =~= seq![bad, low]);
        lemma_sensor_crc_of_pair(bad, low);
        assert(CRC_INITIAL ^ bad != CRC_INITIAL ^ high) by (bit_vector)
            requires
                mask != 0,
                bad == high ^ mask,
        ;
        lemma_byte_keeps_apart(CRC_POLY, CRC_INITIAL, bad, CRC_INITIAL, high);
        let mid_bad = crc8_byte(CRC_POLY, CRC_INITIAL, bad);
        assert(mid_bad ^ low != mid ^ low) by (bit_vector)
            requires
                mid_bad != mid,
        ;
        lemma_byte_keeps_apart(CRC_POLY, mid_bad, low, mid, low);
    } else if bit / 8 == 1 {
        // The damage is in the second byte: the registers part there.
        let bad = low ^ mask;
        assert(damaged.subrange(0, 2) =~= seq![high, bad]);
        lemma_sensor_crc_of_pair(high, bad);
        assert(mid ^ bad != mid ^ low) by (bit_vector)
            requires
                mask != 0,
                bad == low ^ mask,
        ;
        lemma_byte_keeps_apart(CRC_POLY, mid, bad, mid, low);
    } else {
        // The damage is in the checksum itself.
        assert(damaged.subrange(0, 2) =~= seq![high, low]);
        assert(crc ^ mask != crc) by (bit_vector)
            requires
                mask != 0,
        ;
    }
}

} // verus!
