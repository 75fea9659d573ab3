use vstd::prelude::*;

verus! {

/// The errors that serialization and deserialization can report.
#[derive(Debug, Clone, Copy, PartialEq, Eq, Structural)]
pub enum Error {
    /// The output buffer had no room left for the serialized value.
    SerializeBufferFull,
    /// The input ended before the value was complete.
    DeserializeUnexpectedEnd,
    /// A varint was longer than its type allows, or carried too many bits.
    DeserializeBadVarint,
    /// A string's bytes were not valid UTF-8.
    DeserializeBadUtf8,
    /// A COBS frame could not be decoded.
    DeserializeBadEncoding,
}

} // verus!
