//! Deserialization and serialization errors of the binary codec.

use vstd::prelude::*;

verus! {

/// Error that the binary codec can report.
#[derive(Clone, Copy, Debug, PartialEq, Eq, Structural)]
pub enum Error {
    /// The input ended in the middle of a structure.
    UnexpectedEof,
    /// The module does not begin with the `\0asm` magic bytes.
    InvalidMagic,
    /// The module header carries an unsupported version number.
    UnsupportedVersion(u32),
    /// A one-bit field held a byte other than 0 or 1.
    InvalidVarUint1(u8),
    /// A 32-bit LEB128 integer ran over its five-byte limit.
    InvalidVarInt32,
    /// A 64-bit LEB128 integer ran over its ten-byte limit.
    InvalidVarInt64,
    /// A length-prefixed name was not valid UTF-8.
    NonUtf8String,
    /// A value-type byte named none of the four numeric types.
    UnknownValueType(i8),
    /// A block-type byte named neither a value type nor the empty type.
    UnknownBlockType(i8),
    /// An import-entry kind byte was out of range.
    UnknownExternalKind(u8),
    /// An export-entry kind byte was out of range.
    UnknownInternalKind(u8),
    /// An instruction byte named no known opcode.
    UnknownOpcode(u8),
    /// A declared payload length disagrees with the payload itself.
    InconsistentLength,
}

} // verus!
