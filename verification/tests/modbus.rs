//! Frame parsing and checksums.

use daly_bms_exporter::error::{DecodeError, HexError};
use daly_bms_exporter::modbus::{
    crc16, parse_response, request_start_register, response_registers,
};

// Real request frames: the trailing two bytes are the CRC in little-endian, so
// the CRC value is byte-swapped.
#[test]
fn crc16_realtime_request() {
    // D2 03 00 00 00 7E  ->  CRC bytes D6 49  ->  0x49D6
    assert_eq!(crc16(&[0xD2, 0x03, 0x00, 0x00, 0x00, 0x7E]), 0x49D6);
}

#[test]
fn crc16_config_request() {
    // D2 03 00 80 00 70  ->  CRC bytes 56 65  ->  0x6556
    assert_eq!(crc16(&[0xD2, 0x03, 0x00, 0x80, 0x00, 0x70]), 0x6556);
}

fn frame_bytes(regs: &[u16]) -> Vec<u8> {
    let mut body = vec![0xD2, 0x03, (regs.len() * 2) as u8];
    for r in regs {
        body.extend_from_slice(&r.to_be_bytes());
    }
    let crc = crc16(&body);
    body.extend_from_slice(&crc.to_le_bytes());
    body
}

/// Build a valid response ADU from registers (for round-trip tests).
fn build_frame(regs: &[u16]) -> String {
    hex::encode(frame_bytes(regs))
}

#[test]
fn parse_response_round_trip() {
    let regs: Vec<u16> = (0..112).collect();
    let frame = build_frame(&regs);
    assert_eq!(parse_response(&frame).unwrap(), regs);
}

#[test]
fn longest_frame_round_trips() {
    let regs: Vec<u16> = (0..127).map(|i| i * 517).collect();
    let frame = build_frame(&regs);
    assert_eq!(parse_response(&frame).unwrap(), regs);
    assert_eq!(parse_response(&build_frame(&[])).unwrap(), Vec::<u16>::new());
}

#[test]
fn parse_response_rejects_bad_crc() {
    let mut frame = build_frame(&[1, 2, 3]);
    // Corrupt the last hex nibble (part of the CRC).
    let last = frame.pop().unwrap();
    frame.push(if last == '0' { '1' } else { '0' });
    assert!(matches!(
        parse_response(&frame),
        Err(DecodeError::CrcMismatch { .. })
    ));
}

#[test]
fn parse_response_rejects_short_frame() {
    assert!(matches!(
        parse_response("D203"),
        Err(DecodeError::TooShort { .. })
    ));
    assert_eq!(parse_response("D203"), Err(DecodeError::TooShort { len: 2 }));
}

#[test]
fn parse_response_rejects_bytecount_mismatch() {
    // Declares 0xE0 (224) bytes but supplies far fewer; must not panic.
    assert!(matches!(
        parse_response("D203E00001AABB"),
        Err(DecodeError::BadByteCount { .. })
    ));
    assert_eq!(
        parse_response("D203E00001AABB"),
        Err(DecodeError::BadByteCount {
            declared: 0xE0,
            actual: 2
        })
    );
}

#[test]
fn start_register_dispatch() {
    assert_eq!(request_start_register("D2030000007ED649").unwrap(), 0x0000);
    assert_eq!(request_start_register("D203008000705665").unwrap(), 0x0080);
}

#[test]
fn short_request_is_refused() {
    assert_eq!(
        request_start_register("D203000000"),
        Err(DecodeError::TooShort { len: 5 })
    );
}

#[test]
fn wrong_address_and_function_are_refused() {
    assert_eq!(
        parse_response("D103000000"),
        Err(DecodeError::BadAddress(0xD1))
    );
    assert_eq!(
        parse_response("D204000000"),
        Err(DecodeError::BadFunction(0x04))
    );
}

#[test]
fn bad_hex_is_reported_with_its_place() {
    assert_eq!(
        parse_response("D20"),
        Err(DecodeError::BadHex(HexError::OddLength))
    );
    assert_eq!(
        parse_response("D2x3"),
        Err(DecodeError::BadHex(HexError::InvalidHexCharacter {
            c: 'x',
            index: 2
        }))
    );
    // A two-byte character is reported by its first byte, read as Latin-1.
    assert_eq!(
        request_start_register("é"),
        Err(DecodeError::BadHex(HexError::InvalidHexCharacter {
            c: '\u{c3}',
            index: 0
        }))
    );
    // The odd length is reported before the bad digit.
    assert_eq!(
        request_start_register("zz1"),
        Err(DecodeError::BadHex(HexError::OddLength))
    );
}

#[test]
fn a_request_shorter_than_its_layout_is_refused() {
    for (command, len) in [("", 0), ("D203", 2), ("D20300800070", 6), ("D2030080007056", 7)] {
        assert_eq!(
            request_start_register(command),
            Err(DecodeError::TooShort { len }),
            "{command}"
        );
    }
    // The checksum of a request is not checked, only that there is one.
    assert_eq!(request_start_register("D203008000700000"), Ok(0x0080));
}

#[test]
fn hex_digits_of_either_case_are_read() {
    assert_eq!(request_start_register("d203AbCd007e56fF").unwrap(), 0xABCD);
}

#[test]
fn a_frame_followed_by_its_crc_has_no_remainder() {
    let frame = frame_bytes(&[7, 8, 9]);
    assert_eq!(crc16(&frame), 0);
}

#[test]
fn any_changed_byte_is_noticed() {
    let good = frame_bytes(&[0x0893, 0x010D, 0x7534]);
    assert_eq!(
        response_registers(&good).unwrap(),
        vec![0x0893, 0x010D, 0x7534]
    );
    for at in 0..good.len() {
        for flip in [1u8, 0x80, 0xFF] {
            let mut bad = good.clone();
            bad[at] ^= flip;
            assert!(response_registers(&bad).is_err(), "byte {at} flipped by {flip}");
        }
    }
}
