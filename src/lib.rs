//! A versioned, compressed binary container for meshlet mesh assets.
//!
//! The byte layout, the typed-array records and the validation of a decoded
//! asset are verified; the frame compression is delegated to `lz4_flex`.

pub mod asset;
pub mod bytes;
pub mod codec;
pub mod element;
pub mod error;
pub mod frame;
pub mod framing;
pub mod payload;
pub mod record;
