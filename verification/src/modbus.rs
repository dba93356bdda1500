//! Low-level Modbus RTU parsing. No domain/block semantics live here — the
//! caller (see [`crate::decode`]) decides what the registers mean.

use vstd::prelude::*;
use vstd::slice::*;
use vstd::string::*;

use crate::error::{DecodeError, HexError};

verus! {

/// Slave address of the Daly BMS on the RTU bus.
pub const BMS_ADDRESS: u8 = 0xD2;

/// Function code 0x03 = Read Holding Registers.
pub const FUNC_READ_HOLDING: u8 = 0x03;

// --- Checksum ---

/// One bit step of the reflected CRC with polynomial 0xA001.
pub open spec fn crc_bit(c: u16) -> u16 {
    if c & 1 != 0 {
        (c >> 1) ^ 0xA001
    } else {
        c >> 1
    }
}

/// `n` bit steps.
pub open spec fn crc_bits(c: u16, n: nat) -> u16
    decreases n,
{
    if n == 0 {
        c
    } else {
        crc_bit(crc_bits(c, (n - 1) as nat))
    }
}

/// Fold one byte into the checksum.
pub open spec fn crc_byte(c: u16, b: u8) -> u16 {
    crc_bits(c ^ (b as u16), 8)
}

/// Fold `data` into a running checksum, first byte first.
pub open spec fn crc_from(c: u16, data: Seq<u8>) -> u16
    decreases data.len(),
{
    if data.len() == 0 {
        c
    } else {
        crc_byte(crc_from(c, data.drop_last()), data.last())
    }
}

/// The Modbus CRC-16 of `data`: polynomial 0xA001 reflected, initial value
/// 0xFFFF.
pub open spec fn crc_of(data: Seq<u8>) -> u16 {
    crc_from(0xFFFF, data)
}

/// Modbus CRC-16 (polynomial 0xA001 reflected, init 0xFFFF). Transmitted
/// little-endian in the frame.
pub fn crc16(data: &[u8]) -> (r: u16)
    ensures
        r == crc_of(data@),
{
    let mut crc: u16 = 0xFFFF;
    let mut i: usize = 0;
    while i < data.len()
        invariant
            i <= data@.len(),
            crc == crc_of(data@.take(i as int)),
        decreases data@.len() - i,
    {
        let ghost before = crc;
        crc = crc ^ (data[i] as u16);
        let mut bit: usize = 0;
        while bit < 8
            invariant
                bit <= 8,
                crc == crc_bits(before ^ (data@[i as int] as u16), bit as nat),
            decreases 8 - bit,
        {
            if crc & 1 != 0 {
                crc = (crc >> 1) ^ 0xA001;
            } else {
                crc = crc >> 1;
            }
            bit += 1;
        }
        proof {
            let next = data@.take(i + 1);
            assert(next.drop_last() =~= data@.take(i as int));
            assert(next.last() == data@[i as int]);
        }
        i += 1;
    }
    proof {
        assert(data@.take(data@.len() as int) =~= data@);
    }
    crc
}

/// A bit step loses nothing: different registers step to different registers.
proof fn lemma_bit_injective(a: u16, b: u16)
    requires
        crc_bit(a) == crc_bit(b),
    ensures
        a == b,
{
    assert((if a & 1 != 0 {
        (a >> 1) ^ 0xA001
    } else {
        a >> 1
    }) == (if b & 1 != 0 {
        (b >> 1) ^ 0xA001
    } else {
        b >> 1
    }) ==> a == b) by (bit_vector);
}

proof fn lemma_bits_injective(a: u16, b: u16, n: nat)
    requires
        crc_bits(a, n) == crc_bits(b, n),
    ensures
        a == b,
    decreases n,
{
    if n > 0 {
        lemma_bit_injective(crc_bits(a, (n - 1) as nat), crc_bits(b, (n - 1) as nat));
        lemma_bits_injective(a, b, (n - 1) as nat);
    }
}

/// While the bits shifted out are zero a step is a plain shift.
proof fn lemma_bits_shift(c: u16, n: nat)
    requires
        c & 0xFF == 0,
        n <= 8,
    ensures
        crc_bits(c, n) == c >> (n as u16),
    decreases n,
{
    if n == 0 {
        assert(c >> 0u16 == c) by (bit_vector);
    } else {
        lemma_bits_shift(c, (n - 1) as nat);
        let k = (n - 1) as u16;
        assert((c >> k) & 1 == 0 && (c >> k) >> 1 == c >> ((k + 1) as u16)) by (bit_vector)
            requires
                c & 0xFF == 0,
                k < 8,
        ;
    }
}

/// The two checksum bytes as transmitted, low byte first.
pub open spec fn crc_bytes(c: u16) -> Seq<u8> {
    seq![(c & 0xFF) as u8, (c >> 8) as u8]
}

/// Folding a concatenation is folding the parts one after the other.
pub proof fn lemma_crc_concat(c: u16, a: Seq<u8>, b: Seq<u8>)
    ensures
        crc_from(c, a + b) == crc_from(crc_from(c, a), b),
    decreases b.len(),
{
    if b.len() == 0 {
        assert(a + b =~= a);
    } else {
        assert((a + b).drop_last() =~= a + b.drop_last());
        lemma_crc_concat(c, a, b.drop_last());
    }
}

/// A message followed by its own transmitted checksum has checksum zero.
pub proof fn law_crc_residue(data: Seq<u8>)
    ensures
        crc_of(data + crc_bytes(crc_of(data))) == 0,
{
    let c = crc_of(data);
    let tail = crc_bytes(c);
    lemma_crc_concat(0xFFFF, data, tail);
    assert(tail.drop_last() =~= seq![tail[0]]);
    assert(tail.drop_last().drop_last() =~= Seq::<u8>::empty());
    reveal_with_fuel(crc_from, 3);
    let lo = (c & 0xFF) as u8;
    let hi = (c >> 8) as u8;
    let x = c ^ (lo as u16);
    assert(x & 0xFF == 0 && x >> 8 == c >> 8) by (bit_vector)
        requires
            x == c ^ (lo as u16),
            lo == (c & 0xFF) as u8,
    ;
    lemma_bits_shift(x, 8);
    let y = (c >> 8) ^ (hi as u16);
    assert(y == 0) by (bit_vector)
        requires
            y == (c >> 8) ^ (hi as u16),
            hi == (c >> 8) as u8,
    ;
    assert(0u16 & 0xFF == 0) by (bit_vector);
    assert(0u16 >> 8u16 == 0) by (bit_vector);
    lemma_bits_shift(0, 8);
}

proof fn lemma_crc_state_injective(a: u16, b: u16, data: Seq<u8>)
    requires
        crc_from(a, data) == crc_from(b, data),
    ensures
        a == b,
    decreases data.len(),
{
    if data.len() > 0 {
        let x = crc_from(a, data.drop_last());
        let y = crc_from(b, data.drop_last());
        let d = data.last() as u16;
        lemma_bits_injective(x ^ d, y ^ d, 8);
        assert(x == y) by (bit_vector)
            requires
                x ^ d == y ^ d,
        ;
        lemma_crc_state_injective(a, b, data.drop_last());
    }
}

/// The checksum notices every corruption that stays within one byte.
pub proof fn law_crc_detects_one_byte(data: Seq<u8>, at: int, other: u8)
    requires
        0 <= at < data.len(),
        other != data[at],
    ensures
        crc_of(data.update(at, other)) != crc_of(data),
{
    let bad = data.update(at, other);
    if crc_of(bad) == crc_of(data) {
        let head = data.take(at);
        let tail = data.skip(at + 1);
        assert(data =~= (head + seq![data[at]]) + tail);
        assert(bad =~= (head + seq![other]) + tail);
        lemma_crc_concat(0xFFFF, head + seq![data[at]], tail);
        lemma_crc_concat(0xFFFF, head + seq![other], tail);
        lemma_crc_state_injective(
            crc_of(head + seq![data[at]]),
            crc_of(head + seq![other]),
            tail,
        );
        assert((head + seq![data[at]]).drop_last() =~= head);
        assert((head + seq![other]).drop_last() =~= head);
        let c = crc_of(head);
        let p = data[at];
        lemma_bits_injective(c ^ (p as u16), c ^ (other as u16), 8);
        assert(p == other) by (bit_vector)
            requires
                c ^ (p as u16) == c ^ (other as u16),
        ;
    }
}

// --- Hexadecimal text ---

/// The value of one hexadecimal digit, upper or lower case.
pub open spec fn nibble(b: u8) -> Option<u8> {
    if 0x30 <= b <= 0x39 {
        Some((b - 0x30) as u8)
    } else if 0x41 <= b <= 0x46 {
        Some((b - 0x41 + 10) as u8)
    } else if 0x61 <= b <= 0x66 {
        Some((b - 0x61 + 10) as u8)
    } else {
        None
    }
}

/// How many bytes at the start of `text` are hexadecimal digits.
pub open spec fn hex_prefix(text: Seq<u8>) -> nat
    decreases text.len(),
{
    if text.len() == 0 || nibble(text[0]) is None {
        0
    } else {
        1 + hex_prefix(text.drop_first())
    }
}

/// The byte that a pair of digits stands for.
pub open spec fn hex_pair(hi: u8, lo: u8) -> u8 {
    (16 * nibble(hi)->Some_0 + nibble(lo)->Some_0) as u8
}

/// The bytes that a hexadecimal text stands for. An odd number of digits is
/// reported before a bad digit, and of several bad digits the first one.
pub open spec fn hex_bytes(text: Seq<u8>) -> Result<Seq<u8>, HexError> {
    let good = hex_prefix(text);
    if text.len() % 2 != 0 {
        Err(HexError::OddLength)
    } else if good < text.len() {
        Err(HexError::InvalidHexCharacter { c: text[good as int] as char, index: good as usize })
    } else {
        Ok(Seq::new(text.len() / 2, |i: int| hex_pair(text[2 * i], text[2 * i + 1])))
    }
}

/// Calls `hex::decode` on the UTF-8 bytes of `text` and moves its error into
/// [`HexError`], variant for variant. The contract says what that crate does:
/// it refuses an odd number of bytes, else reports the first byte that is no
/// digit (as a Latin-1 character, with its position), else gives one byte for
/// each pair of digits, the high half first, in either case.
#[verifier::external_body]
fn decode_hex(text: &str) -> (r: Result<Vec<u8>, HexError>)
    ensures
        match r {
            Ok(bytes) => hex_bytes(text.spec_bytes()) == Ok::<Seq<u8>, HexError>(bytes@),
            Err(e) => hex_bytes(text.spec_bytes()) == Err::<Seq<u8>, HexError>(e),
        },
{
    hex::decode(text).map_err(|e| match e {
        hex::FromHexError::InvalidHexCharacter { c, index } => HexError::InvalidHexCharacter {
            c,
            index,
        },
        hex::FromHexError::OddLength => HexError::OddLength,
        hex::FromHexError::InvalidStringLength => HexError::InvalidStringLength,
    })
}

// --- Frames ---

/// Two bytes as a big-endian register.
pub open spec fn be16(hi: u8, lo: u8) -> u16 {
    (256 * hi + lo) as u16
}

/// What a response frame carries. Frame layout:
/// `addr(1) func(1) bytecount(1) <bytecount payload> crc(2 LE)`. The checks
/// come in this order: length, address, function, byte count, checksum. Of an
/// odd byte count the last payload byte belongs to no register.
pub open spec fn response(raw: Seq<u8>) -> Result<Seq<u16>, DecodeError> {
    if raw.len() < 5 {
        Err(DecodeError::TooShort { len: raw.len() as usize })
    } else if raw[0] != BMS_ADDRESS {
        Err(DecodeError::BadAddress(raw[0]))
    } else if raw[1] != FUNC_READ_HOLDING {
        Err(DecodeError::BadFunction(raw[1]))
    } else if raw.len() != raw[2] + 5 {
        Err(
            DecodeError::BadByteCount {
                declared: raw[2] as usize,
                actual: (raw.len() - 5) as usize,
            },
        )
    } else {
        let expected = be16(raw[raw[2] + 4], raw[raw[2] + 3]);
        let got = crc_of(raw.take(raw[2] + 3));
        if expected != got {
            Err(DecodeError::CrcMismatch { expected, got })
        } else {
            Ok(Seq::new((raw[2] / 2) as nat, |i: int| be16(raw[3 + 2 * i], raw[4 + 2 * i])))
        }
    }
}

/// The registers of a response frame, or the first thing wrong with it.
pub fn response_registers(raw: &[u8]) -> (r: Result<Vec<u16>, DecodeError>)
    ensures
        match r {
            Ok(registers) => response(raw@) == Ok::<Seq<u16>, DecodeError>(registers@),
            Err(e) => response(raw@) == Err::<Seq<u16>, DecodeError>(e),
        },
{
    // Minimum frame: addr + func + bytecount + 2-byte CRC.
    if raw.len() < 5 {
        return Err(DecodeError::TooShort { len: raw.len() });
    }
    if raw[0] != BMS_ADDRESS {
        return Err(DecodeError::BadAddress(raw[0]));
    }
    if raw[1] != FUNC_READ_HOLDING {
        return Err(DecodeError::BadFunction(raw[1]));
    }
    let nbytes: usize = raw[2] as usize;
    // The frame length must exactly match the declared byte count. This is what
    // guarantees a crafted-but-short frame is rejected before decoding.
    if raw.len() != 3 + nbytes + 2 {
        return Err(DecodeError::BadByteCount { declared: nbytes, actual: raw.len() - 5 });
    }
    let crc_pos: usize = 3 + nbytes;
    let expected: u16 = 256 * (raw[crc_pos + 1] as u16) + raw[crc_pos] as u16;
    let got: u16 = crc16(slice_subrange(raw, 0, crc_pos));
    proof {
        assert(raw@.subrange(0, crc_pos as int) =~= raw@.take(crc_pos as int));
    }
    if expected != got {
        return Err(DecodeError::CrcMismatch { expected, got });
    }
    let mut registers: Vec<u16> = Vec::new();
    let mut i: usize = 0;
    while i < nbytes / 2
        invariant
            i <= nbytes / 2,
            nbytes == raw@[2],
            raw@.len() == nbytes + 5,
            registers@.len() == i,
            forall|k: int|
                0 <= k < i ==> registers@[k] == be16(raw@[3 + 2 * k], raw@[4 + 2 * k]),
        decreases nbytes / 2 - i,
    {
        let register: u16 = 256 * (raw[3 + 2 * i] as u16) + raw[4 + 2 * i] as u16;
        registers.push(register);
        i += 1;
    }
    proof {
        assert(registers@ =~= Seq::new(
            (raw@[2] / 2) as nat,
            |i: int| be16(raw@[3 + 2 * i], raw@[4 + 2 * i]),
        ));
    }
    Ok(registers)
}

/// What the hexadecimal text of a response frame carries.
pub open spec fn response_text(text: Seq<u8>) -> Result<Seq<u16>, DecodeError> {
    match hex_bytes(text) {
        Ok(raw) => response(raw),
        Err(e) => Err(DecodeError::BadHex(e)),
    }
}

/// Parse a function-0x03 response ADU (hex string) into 16-bit big-endian
/// registers, validating address, function, declared byte count and CRC.
pub fn parse_response(hex_str: &str) -> (r: Result<Vec<u16>, DecodeError>)
    ensures
        match r {
            Ok(registers) => response_text(hex_str.spec_bytes()) == Ok::<Seq<u16>, DecodeError>(
                registers@,
            ),
            Err(e) => response_text(hex_str.spec_bytes()) == Err::<Seq<u16>, DecodeError>(e),
        },
{
    match decode_hex(hex_str) {
        Ok(raw) => response_registers(raw.as_slice()),
        Err(e) => Err(DecodeError::BadHex(e)),
    }
}

/// The start register of a request frame. Request layout:
/// `addr func start(2 BE) qty(2 BE) crc(2)`; a frame shorter than that is
/// refused, and nothing but the length is checked.
pub open spec fn request_start(raw: Seq<u8>) -> Result<u16, DecodeError> {
    if raw.len() < 8 {
        Err(DecodeError::TooShort { len: raw.len() as usize })
    } else {
        Ok(be16(raw[2], raw[3]))
    }
}

/// The start register that the hexadecimal text of a request frame asks for.
pub open spec fn request_start_text(text: Seq<u8>) -> Result<u16, DecodeError> {
    match hex_bytes(text) {
        Ok(raw) => request_start(raw),
        Err(e) => Err(DecodeError::BadHex(e)),
    }
}

/// Extract the start register of a Modbus request (the `Command` field) so the
/// caller can dispatch the register block. A frame shorter than the request
/// layout is refused.
pub fn request_start_register(command_hex: &str) -> (r: Result<u16, DecodeError>)
    ensures
        r == request_start_text(command_hex.spec_bytes()),
{
    match decode_hex(command_hex) {
        Ok(raw) => {
            if raw.len() < 8 {
                Err(DecodeError::TooShort { len: raw.len() })
            } else {
                Ok(256 * (raw[2] as u16) + raw[3] as u16)
            }
        },
        Err(e) => Err(DecodeError::BadHex(e)),
    }
}

// --- What the format guarantees ---

/// The request frame that asks for `count` registers from `start` on.
pub open spec fn request_frame(start: u16, count: u16) -> Seq<u8> {
    let body = seq![
        BMS_ADDRESS,
        FUNC_READ_HOLDING,
        (start / 256) as u8,
        (start % 256) as u8,
        (count / 256) as u8,
        (count % 256) as u8,
    ];
    body + crc_bytes(crc_of(body))
}

/// The start register of a request reads back as the one it was built from.
pub proof fn law_request_round_trip(start: u16, count: u16)
    ensures
        request_start(request_frame(start, count)) == Ok::<u16, DecodeError>(start),
{
    assert(be16((start / 256) as u8, (start % 256) as u8) == start);
}

/// The response frame that carries `registers`.
pub open spec fn response_frame(registers: Seq<u16>) -> Seq<u8> {
    let body = seq![BMS_ADDRESS, FUNC_READ_HOLDING, (2 * registers.len()) as u8] + Seq::new(
        2 * registers.len(),
        |i: int|
            if i % 2 == 0 {
                (registers[i / 2] / 256) as u8
            } else {
                (registers[i / 2] % 256) as u8
            },
    );
    body + crc_bytes(crc_of(body))
}

proof fn lemma_crc_bytes(c: u16)
    ensures
        be16(crc_bytes(c)[1], crc_bytes(c)[0]) == c,
{
    let lo = (c & 0xFF) as u8;
    let hi = (c >> 8) as u8;
    assert(256 * hi + lo == c) by (bit_vector)
        requires
            lo == (c & 0xFF) as u8,
            hi == (c >> 8) as u8,
    ;
}

/// Reading a frame gives back the registers it was built from, for every
/// register list whose byte count fits in the one-byte count field.
pub proof fn law_response_round_trip(registers: Seq<u16>)
    requires
        registers.len() <= 127,
    ensures
        response(response_frame(registers)) == Ok::<Seq<u16>, DecodeError>(registers),
{
    let raw = response_frame(registers);
    let n = (2 * registers.len()) as u8;
    let payload = Seq::new(
        2 * registers.len(),
        |i: int|
            if i % 2 == 0 {
                (registers[i / 2] / 256) as u8
            } else {
                (registers[i / 2] % 256) as u8
            },
    );
    let body = seq![BMS_ADDRESS, FUNC_READ_HOLDING, n] + payload;
    assert(raw.take(n + 3) =~= body);
    lemma_crc_bytes(crc_of(body));
    let read = Seq::new((n / 2) as nat, |i: int| be16(raw[3 + 2 * i], raw[4 + 2 * i]));
    assert forall|i: int| 0 <= i < registers.len() implies read[i] == registers[i] by {
        assert(raw[3 + 2 * i] == payload[2 * i]);
        assert(raw[4 + 2 * i] == payload[2 * i + 1]);
        assert((2 * i) % 2 == 0 && (2 * i) / 2 == i);
        assert((2 * i + 1) % 2 == 1 && (2 * i + 1) / 2 == i);
    }
    assert(read =~= registers);
}

/// A frame that was accepted is refused once any one of its bytes changes.
pub proof fn law_corrupt_response_is_refused(raw: Seq<u8>, at: int, other: u8)
    requires
        response(raw) is Ok,
        0 <= at < raw.len(),
        other != raw[at],
    ensures
        response(raw.update(at, other)) is Err,
{
    let bad = raw.update(at, other);
    let n = raw[2] + 3;
    if at >= 3 {
        if at < n {
            assert(bad.take(n) =~= raw.take(n).update(at, other));
            law_crc_detects_one_byte(raw.take(n), at, other);
        } else {
            assert(bad.take(n) =~= raw.take(n));
        }
    }
}

/// One hexadecimal digit, lower case.
pub open spec fn nibble_text(n: u8) -> u8 {
    if n < 10 {
        (0x30 + n) as u8
    } else {
        (0x61 + n - 10) as u8
    }
}

/// The lower-case hexadecimal text of `bytes`.
pub open spec fn hex_text(bytes: Seq<u8>) -> Seq<u8> {
    Seq::new(
        2 * bytes.len(),
        |i: int|
            if i % 2 == 0 {
                nibble_text((bytes[i / 2] / 16) as u8)
            } else {
                nibble_text((bytes[i / 2] % 16) as u8)
            },
    )
}

proof fn lemma_hex_prefix_full(text: Seq<u8>)
    requires
        forall|i: int| 0 <= i < text.len() ==> nibble(#[trigger] text[i]) is Some,
    ensures
        hex_prefix(text) == text.len(),
    decreases text.len(),
{
    if text.len() > 0 {
        assert forall|i: int| 0 <= i < text.drop_first().len() implies nibble(
            #[trigger] text.drop_first()[i],
        ) is Some by {
            assert(text.drop_first()[i] == text[i + 1]);
        }
        lemma_hex_prefix_full(text.drop_first());
    }
}

/// Whether `text` writes `bytes` in hexadecimal, each digit in either case.
pub open spec fn writes_hex(text: Seq<u8>, bytes: Seq<u8>) -> bool {
    &&& text.len() == 2 * bytes.len()
    &&& forall|i: int|
        0 <= i < bytes.len() ==> nibble(text[2 * i]) == Some(((#[trigger] bytes[i]) / 16) as u8)
            && nibble(text[2 * i + 1]) == Some((bytes[i] % 16) as u8)
}

/// Hexadecimal text in either case, or in both, reads back as the bytes it
/// writes.
pub proof fn law_hex_of_either_case(text: Seq<u8>, bytes: Seq<u8>)
    requires
        writes_hex(text, bytes),
    ensures
        hex_bytes(text) == Ok::<Seq<u8>, HexError>(bytes),
{
    assert forall|k: int| 0 <= k < text.len() implies nibble(#[trigger] text[k]) is Some by {
        let b = bytes[k / 2];
        assert(k == 2 * (k / 2) || k == 2 * (k / 2) + 1);
    }
    lemma_hex_prefix_full(text);
    let read = Seq::new(text.len() / 2, |i: int| hex_pair(text[2 * i], text[2 * i + 1]));
    assert forall|i: int| 0 <= i < bytes.len() implies read[i] == bytes[i] by {
        let b = bytes[i];
    }
    assert(read =~= bytes);
}

/// The lower-case text of bytes reads back as those bytes.
pub proof fn law_hex_round_trip(bytes: Seq<u8>)
    ensures
        writes_hex(hex_text(bytes), bytes),
        hex_bytes(hex_text(bytes)) == Ok::<Seq<u8>, HexError>(bytes),
{
    let text = hex_text(bytes);
    assert forall|i: int| 0 <= i < bytes.len() implies nibble(text[2 * i]) == Some(
        ((#[trigger] bytes[i]) / 16) as u8,
    ) && nibble(text[2 * i + 1]) == Some((bytes[i] % 16) as u8) by {
        assert((2 * i) % 2 == 0 && (2 * i) / 2 == i);
        assert((2 * i + 1) % 2 == 1 && (2 * i + 1) / 2 == i);
    }
    law_hex_of_either_case(text, bytes);
}

/// The text of a response frame, in either case, reads back as the registers it
/// carries.
pub proof fn law_response_text_round_trip(text: Seq<u8>, registers: Seq<u16>)
    requires
        registers.len() <= 127,
        writes_hex(text, response_frame(registers)),
    ensures
        response_text(text) == Ok::<Seq<u16>, DecodeError>(registers),
{
    law_hex_of_either_case(text, response_frame(registers));
    law_response_round_trip(registers);
}

} // verus!
