use vstd::prelude::*;

verus! {

/// Why a deposit payload was rejected.
#[derive(Clone, Copy, Debug, PartialEq, Eq, Structural)]
pub enum MalformedReason {
    /// The payload is shorter than the fixed header of its shape.
    ShortPayload,
    /// The token-id and amount arrays differ in length, or one is empty.
    LengthMismatchOrEmpty,
}

/// The error taxonomy shared by the ABI codec, the deposit decoder and the
/// driver model.
#[derive(Clone, Copy, Debug, PartialEq, Eq, Structural)]
pub enum RollupError {
    /// An encode operation ran out of buffer capacity.
    BufferOverflow,
    /// A decode operation asked for more bytes than remain.
    BufferUnderflow,
    /// A declared length or offset reaches past the end of the payload.
    Truncated,
    /// A value does not fit its declared width, or padding bytes are not zero.
    EncodingRangeError,
    /// A boolean slot holds a low-order byte other than 0 or 1.
    InvalidBoolEncoding,
    /// An address slot holds nonzero bytes in its high-order padding.
    InvalidAddressEncoding,
    /// A dynamic-bytes offset or length points outside the buffer.
    DanglingOffset,
    /// The leading four-byte selector differs from the expected one.
    SelectorMismatch,
    /// A deposit payload does not have the shape its portal requires.
    MalformedDeposit(MalformedReason),
    /// A settlement-mutating output was emitted while handling an inspect request.
    InvalidOutputForInspect,
    /// A string is not valid hexadecimal text.
    InvalidHexInput,
}

} // verus!
