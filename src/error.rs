//! The failures of encoding and decoding.

use vstd::prelude::*;

verus! {

/// Why an encode or a decode failed.
#[derive(Clone, Copy, Debug, PartialEq, Eq, Structural)]
pub enum CodecError {
    /// The underlying stream failed, or ended inside the header.
    IoFailure,
    /// The header does not start with the asset magic number.
    InvalidMagic,
    /// The header names a format version other than the supported one.
    UnsupportedVersion(u64),
    /// The compressed frame is corrupt, or its content ends inside a record.
    FramingCorruption,
    /// The decoded arrays break an invariant of a meshlet mesh.
    MalformedAsset,
}

} // verus!
