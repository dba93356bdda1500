//! Modbus frame decoding errors.

use vstd::prelude::*;

verus! {

/// Why a text is not the hexadecimal form of some bytes.
#[derive(Debug, Clone, Copy, PartialEq, Eq, Structural)]
pub enum HexError {
    /// The byte at `index` is no hexadecimal digit; `c` is that byte as a
    /// character.
    InvalidHexCharacter { c: char, index: usize },
    /// The number of digits is odd.
    OddLength,
    /// The text does not fill a container of fixed size.
    InvalidStringLength,
}

/// Error decoding a Modbus RTU frame from the device. Every variant is a
/// recoverable, per-frame condition: the caller logs and skips the frame, never
/// aborting the whole request (the body is untrusted device input).
#[derive(Debug, Clone, Copy, PartialEq, Eq, Structural)]
pub enum DecodeError {
    /// The text is not valid hexadecimal.
    BadHex(HexError),
    /// The frame is shorter than the smallest frame of its kind.
    TooShort { len: usize },
    /// The slave address is not that of the BMS.
    BadAddress(u8),
    /// The function code is not "read holding registers".
    BadFunction(u8),
    /// The declared byte count does not match the frame length.
    BadByteCount { declared: usize, actual: usize },
    /// The trailing checksum is wrong.
    CrcMismatch { expected: u16, got: u16 },
    /// The request's start register names no known block.
    UnknownBlock(u16),
}

} // verus!
