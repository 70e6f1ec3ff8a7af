//! Error kinds of the server core: the codec's taxonomy (each variant carries
//! the byte position at which it was detected), the opcode table's lookup
//! failure, and the event- and handler-level failures.
use vstd::prelude::*;

verus! {

#[derive(Clone, Copy, Debug, PartialEq, Eq, Structural)]
pub enum Error {
    /// A boolean byte held a value other than 0 or 1.
    InvalidBoolEncoding(u8, usize),
    /// A read or an offset pointed outside the packet body: `(position of the
    /// read, first byte it would have needed)`.
    OffsetOutsideData(usize, usize),
    /// A byte buffer's declared extent runs past the end of the body.
    BytesTooBig(usize),
    /// A string payload was not terminated by a 16-bit zero.
    StringNotNullTerminated(usize),
    /// A sequence element's stored offset disagreed with the expected one.
    InvalidSeqEntry(usize),
    /// A 32-bit enumeration discriminant had no variant.
    UnknownEnum(usize, u32),
    /// A wire code with no entry in the opcode table.
    UnknownOpcode(u16),
    /// The opcode resolves to a name, but no event variant wraps that packet.
    NoEventMappingForPacket,
    /// A handler received a packet event whose connection id was absent.
    EntityNotSet,
    /// A login ticket that is not valid UTF-8.
    InvalidTicket,
    /// A handshake step went wrong: a key blob of the wrong length.
    HandshakeFailed(usize),
    /// A frame length below the header size or above the protocol's cap.
    MalformedFrameLength(usize),
    /// An encoder input whose encoding would not fit below the frame cap.
    PacketTooLarge(usize),
    /// A string that cannot be carried null-terminated: the position of the
    /// zero code unit.
    InvalidString(usize),
}

} // verus!
