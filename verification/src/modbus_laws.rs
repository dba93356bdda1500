//! What is read off a frame, byte by byte.

use vstd::prelude::*;

use crate::error::{DecodeError, HexError};
use crate::modbus::{
    crc_of, hex_bytes, nibble, request_frame, request_start, request_start_text, response,
    response_frame, response_text,
};

verus! {

/// Whether a frame starts as a response of the device does: its address, the read
/// function, and a byte count that the frame's length bears out.
pub open spec fn well_framed(raw: Seq<u8>) -> bool {
    raw.len() >= 5 && raw[0] == 210 && raw[1] == 3 && raw.len() == 3 + raw[2] + 2
}

/// The checksum at the end of a frame, low byte first.
pub open spec fn trailer(raw: Seq<u8>) -> int {
    raw[raw.len() - 2] + 256 * raw[raw.len() - 1]
}

/// A response is refused for its length, its address, its function, its byte count or
/// its checksum, in this order, and each error says what was found. Every other
/// response gives one register for each two bytes of payload, high byte first.
pub proof fn law_responses_are_read(raw: Seq<u8>)
    ensures
        match response(raw) {
            Err(DecodeError::TooShort { len }) => raw.len() < 5 && len == raw.len() as usize,
            Err(DecodeError::BadAddress(a)) => raw.len() >= 5 && a == raw[0] && a != 210,
            Err(DecodeError::BadFunction(f)) => raw.len() >= 5 && raw[0] == 210 && f == raw[1] && f
                != 3,
            Err(DecodeError::BadByteCount { declared, actual }) => raw.len() >= 5 && raw[0] == 210
                && raw[1] == 3 && declared == raw[2] && actual == (raw.len() - 5) as usize
                && raw.len() != 5 + raw[2],
            Err(DecodeError::CrcMismatch { expected, got }) => well_framed(raw) && expected
                == trailer(raw) && got == crc_of(raw.take(raw.len() - 2)) && got != expected,
            Err(_) => false,
            Ok(regs) => {
                &&& well_framed(raw)
                &&& crc_of(raw.take(raw.len() - 2)) == trailer(raw)
                &&& 2 * regs.len() == raw[2] - raw[2] % 2
                &&& forall|i: int|
                    0 <= i < regs.len() ==> #[trigger] regs[i] == 256 * raw[3 + 2 * i] + raw[3 + 2
                        * i + 1]
            },
        },
{
    if let Ok(regs) = response(raw) {
        assert(raw[2] + 3 == raw.len() - 2);
        assert forall|i: int| 0 <= i < regs.len() implies #[trigger] regs[i] == 256 * raw[3 + 2 * i]
            + raw[3 + 2 * i + 1] by {
            assert(4 + 2 * i == 3 + 2 * i + 1);
        }
    }
}

/// The start register of a request stands in its third and fourth bytes, high byte
/// first; a request of fewer than eight bytes is too short.
pub proof fn law_requests_are_read(raw: Seq<u8>)
    ensures
        raw.len() < 8 ==> request_start(raw) == Err::<u16, DecodeError>(
            DecodeError::TooShort { len: raw.len() as usize },
        ),
        raw.len() >= 8 ==> request_start(raw) is Ok && request_start(raw)->Ok_0 == 256 * raw[2]
            + raw[3],
{
}

/// The value of a hexadecimal digit, in either case.
pub open spec fn digit_value(b: u8) -> int {
    if 48 <= b <= 57 {
        b - 48
    } else if 65 <= b <= 70 {
        b - 55
    } else if 97 <= b <= 102 {
        b - 87
    } else {
        -1
    }
}

/// Text is read as hexadecimal digits in pairs, the high half first. It is refused if
/// its length is odd, else for the first character that is no digit.
pub proof fn law_hex_is_read(text: Seq<u8>)
    ensures
        match hex_bytes(text) {
            Err(HexError::OddLength) => text.len() % 2 == 1,
            Err(HexError::InvalidHexCharacter { c, index }) => {
                &&& text.len() % 2 == 0
                &&& exists|k: int|
                    {
                        &&& 0 <= k < text.len()
                        &&& digit_value(#[trigger] text[k]) < 0
                        &&& index == k as usize
                        &&& c == text[k] as char
                        &&& forall|j: int| 0 <= j < k ==> digit_value(#[trigger] text[j]) >= 0
                    }
            },
            Err(_) => false,
            Ok(bytes) => {
                &&& text.len() == 2 * bytes.len()
                &&& forall|i: int|
                    0 <= i < bytes.len() ==> digit_value(text[2 * i]) >= 0 && digit_value(
                        text[2 * i + 1],
                    ) >= 0 && #[trigger] bytes[i] == 16 * digit_value(text[2 * i]) + digit_value(
                        text[2 * i + 1],
                    )
            },
        },
{
    lemma_prefix(text);
    let good = crate::modbus::hex_prefix(text);
    match hex_bytes(text) {
        Err(HexError::InvalidHexCharacter { c, index }) => {
            assert(digit_value(text[good as int]) < 0);
        },
        Ok(bytes) => {
            assert forall|i: int| 0 <= i < bytes.len() implies digit_value(text[2 * i]) >= 0
                && digit_value(text[2 * i + 1]) >= 0 && #[trigger] bytes[i] == 16 * digit_value(
                text[2 * i],
            ) + digit_value(text[2 * i + 1]) by {
                assert(digit_value(text[2 * i]) >= 0);
                assert(digit_value(text[2 * i + 1]) >= 0);
            }
        },
        _ => {},
    }
}

proof fn lemma_prefix(text: Seq<u8>)
    ensures
        ({
            let good = crate::modbus::hex_prefix(text);
            &&& good <= text.len()
            &&& good < text.len() ==> digit_value(text[good as int]) < 0
            &&& forall|j: int| 0 <= j < good ==> digit_value(#[trigger] text[j]) >= 0
        }),
    decreases text.len(),
{
    if text.len() > 0 && nibble(text[0]) is Some {
        let rest = text.drop_first();
        lemma_prefix(rest);
        let good = crate::modbus::hex_prefix(text);
        assert forall|j: int| 0 <= j < good implies digit_value(#[trigger] text[j]) >= 0 by {
            if j > 0 {
                assert(rest[j - 1] == text[j]);
            }
        }
        if good < text.len() {
            assert(rest[good - 1] == text[good as int]);
        }
    }
}

/// Frames arrive as text: what is no hexadecimal text is refused as such, and anything
/// else is read as the bytes it writes.
pub proof fn law_frames_arrive_as_text(text: Seq<u8>)
    ensures
        match hex_bytes(text) {
            Err(e) => {
                &&& response_text(text) == Err::<Seq<u16>, DecodeError>(DecodeError::BadHex(e))
                &&& request_start_text(text) == Err::<u16, DecodeError>(DecodeError::BadHex(e))
            },
            Ok(raw) => {
                &&& response_text(text) == response(raw)
                &&& request_start_text(text) == request_start(raw)
            },
        },
{
}

/// The bytes of a request and of a response: address, function, what is asked or told,
/// high bytes first, and the checksum of all that, low byte first.
pub proof fn law_frames_are_laid_out(start: u16, count: u16, registers: Seq<u16>)
    requires
        registers.len() <= 127,
    ensures
        ({
            let ask = request_frame(start, count);
            let tell = response_frame(registers);
            let n = 2 * registers.len();
            &&& ask.len() == 8
            &&& ask[0] == 210 && ask[1] == 3
            &&& 256 * ask[2] + ask[3] == start
            &&& 256 * ask[4] + ask[5] == count
            &&& trailer(ask) == crc_of(ask.take(6))
            &&& tell.len() == n + 5
            &&& tell[0] == 210 && tell[1] == 3 && tell[2] == n
            &&& forall|i: int|
                0 <= i < registers.len() ==> 256 * tell[3 + 2 * i] + tell[3 + 2 * i + 1]
                    == #[trigger] registers[i]
            &&& trailer(tell) == crc_of(tell.take(tell.len() - 2))
        }),
{
    let ask = request_frame(start, count);
    let tell = response_frame(registers);
    let n = 2 * registers.len();
    assert forall|i: int| 0 <= i < registers.len() implies 256 * tell[3 + 2 * i] + tell[3 + 2 * i
        + 1] == #[trigger] registers[i] by {
        assert((2 * i) % 2 == 0 && (2 * i) / 2 == i);
        assert((2 * i + 1) % 2 == 1 && (2 * i + 1) / 2 == i);
        assert(tell[3 + 2 * i] == (registers[i] / 256) as u8);
        assert(tell[3 + 2 * i + 1] == (registers[i] % 256) as u8);
    }
    let asked = seq![
        210u8,
        3u8,
        (start / 256) as u8,
        (start % 256) as u8,
        (count / 256) as u8,
        (count % 256) as u8,
    ];
    assert(ask.take(6) =~= asked);
    lemma_trailer(crc_of(asked));
    let told = seq![210u8, 3u8, n as u8] + Seq::new(
        n,
        |i: int|
            if i % 2 == 0 {
                (registers[i / 2] / 256) as u8
            } else {
                (registers[i / 2] % 256) as u8
            },
    );
    assert(tell.take(tell.len() - 2) =~= told);
    lemma_trailer(crc_of(told));
}

proof fn lemma_trailer(c: u16)
    ensures
        crate::modbus::crc_bytes(c).len() == 2,
        crate::modbus::crc_bytes(c)[0] + 256 * crate::modbus::crc_bytes(c)[1] == c,
{
    let lo = (c & 0xFF) as u8;
    let hi = (c >> 8) as u8;
    assert(lo + 256 * hi == c) by (bit_vector)
        requires
            lo == (c & 0xFF) as u8,
            hi == (c >> 8) as u8,
    ;
}

} // verus!
