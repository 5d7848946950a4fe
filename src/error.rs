use vstd::prelude::*;

verus! {

/// Why decoding or extracting an archive failed.
#[derive(Debug, Clone, Copy, PartialEq, Eq, Structural)]
pub enum SarcError {
    /// A section signature differs from the one its decoder expects; both
    /// are given as the big-endian value of their four bytes.
    MagicMismatch { expected: u32, found: u32 },
    /// The byte-order marker is neither `0xFEFF` nor `0xFFFE`.
    UnrecognizedEnumValue { value: u16 },
    /// The input ended before the bytes that were asked for.
    TruncatedInput,
    /// A name is not valid UTF-8.
    InvalidEncoding,
    /// The file table and the name table hold different numbers of entries.
    NodeNameCountMismatch { node_count: usize, name_count: usize },
}

} // verus!
