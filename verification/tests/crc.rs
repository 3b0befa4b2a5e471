use scd30::crc::{InvalidCRC, SH30CRC};

/// The checksum as the sensor's data sheet describes it, bit by bit.
fn reference_crc(data: &[u8]) -> u8 {
    let mut register: u8 = 0xFF;
    for byte in data {
        register ^= *byte;
        for _ in 0..8 {
            register = if register & 0x80 != 0 { (register << 1) ^ 0x31 } else { register << 1 };
        }
    }
    register
}

#[test]
fn add_crc() {
    // Test that we constructed the CRC correctly -
    // that the computed value matches the datasheet value.
    // Note that this assumes big-endian byte order of u16s-
    // same as they appear on the i2c bus.
    let mut crc = SH30CRC::new();
    let result = crc.add(0xBEEF);
    assert_eq!(result, [0xBE, 0xEF, 0x92]);
}

#[test]
fn check_crc() {
    let mut crc = SH30CRC::new();
    let value = crc.check(&[0xBE, 0xEF, 0x92]).expect("CRC should validate");
    assert_eq!(value, 0xBEEF);

    let _ = crc
        .check(&[0xBE, 0xEF, 0x91])
        .expect_err("CRC should not validate");
}

#[test]
fn check_crc_reports_both_checksums() {
    let mut crc = SH30CRC::new();
    let err = crc.check(&[0xBE, 0xEF, 0x91]).unwrap_err();
    assert_eq!(err, InvalidCRC { computed: 0x92, received: 0x91 });
}

#[test]
fn add_crc_known_words() {
    let mut crc = SH30CRC::new();
    assert_eq!(crc.add(0x0000), [0x00, 0x00, 0x81]);
    assert_eq!(crc.add(0x0001), [0x00, 0x01, 0xB0]);
    assert_eq!(crc.add(0x000A), [0x00, 0x0A, 0x5A]);
    assert_eq!(crc.add(0xFFFF), [0xFF, 0xFF, 0xAC]);
    assert_eq!(crc.add(0x43C8), [0x43, 0xC8, 0xDB]);
}

#[test]
fn add_crc_agrees_with_reference_on_every_word() {
    let mut crc = SH30CRC::new();
    for word in 0..=u16::MAX {
        let bytes = word.to_be_bytes();
        assert_eq!(crc.add(word), [bytes[0], bytes[1], reference_crc(&bytes)]);
    }
}

#[test]
fn check_accepts_every_added_word() {
    let mut crc = SH30CRC::new();
    for word in 0..=u16::MAX {
        let wire = crc.add(word);
        assert_eq!(crc.check(&wire), Ok(word));
    }
}

#[test]
fn check_rejects_every_other_checksum() {
    let mut crc = SH30CRC::new();
    let good = crc.add(0x1234)[2];
    for received in 0..=u8::MAX {
        let checked = crc.check(&[0x12, 0x34, received]);
        if received == good {
            assert_eq!(checked, Ok(0x1234));
        } else {
            assert_eq!(checked, Err(InvalidCRC { computed: good, received }));
        }
    }
}

#[test]
fn check_reads_only_first_three_bytes() {
    let mut crc = SH30CRC::new();
    assert_eq!(crc.check(&[0xBE, 0xEF, 0x92, 0x00, 0x00, 0x00]), Ok(0xBEEF));
}

#[test]
fn engine_is_reusable_after_mismatch() {
    let mut crc = SH30CRC::new();
    assert!(crc.check(&[0x00, 0x00, 0x00]).is_err());
    assert_eq!(crc.add(0xBEEF), [0xBE, 0xEF, 0x92]);
    assert_eq!(crc.check(&[0x00, 0x00, 0x81]), Ok(0));
}

#[test]
fn check_catches_every_flipped_bit() {
    let mut crc = SH30CRC::new();
    for word in 0..=u16::MAX {
        let wire = crc.add(word);
        for bit in 0..24 {
            let mut damaged = wire;
            damaged[bit / 8] ^= 1 << (bit % 8);
            assert!(crc.check(&damaged).is_err());
        }
    }
}
