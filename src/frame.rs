//! LZ4 frame compression of the payload, through `lz4_flex`.

use vstd::prelude::*;
use crate::framing::frame_closed;

verus! {

#[verifier::external_type_specification]
#[verifier::external_body]
pub struct ExFrameError(lz4_flex::frame::Error);

#[verifier::external_type_specification]
#[verifier::external_body]
pub struct ExIoError(std::io::Error);

/// What `lz4_flex` reads out of the frames in `frame`; `None` where it reports
/// an error.
pub uninterp spec fn lz4_frame_content(frame: Seq<u8>) -> Option<Seq<u8>>;

/// Relies on `lz4_flex::frame::FrameEncoder` with its default frame settings
/// (no content size, no dictionary, no checksums), writing into a `Vec`: all
/// of `raw` goes in one `write_all`, and `finish` closes the frame with its
/// zero end mark. Writes into a `Vec` do not fail, and blocks are compressed
/// into space sized for the worst case, so the encoder does not fail either.
/// The compression is lossless: `FrameDecoder` reads the frame back as exactly
/// `raw`. The compressed bytes themselves differ between targets, so nothing
/// is stated of them but their outer layout.
#[verifier::external_body]
pub(crate) fn compress_frame(raw: &[u8]) -> (r: Result<Vec<u8>, lz4_flex::frame::Error>)
    ensures
        r is Ok,
        r matches Ok(f) ==> frame_closed(f@),
        r matches Ok(f) ==> lz4_frame_content(f@) == Some(raw@),
{
    let mut encoder = lz4_flex::frame::FrameEncoder::new(Vec::new());
    std::io::Write::write_all(&mut encoder, raw)?;
    encoder.finish()
}

/// Relies on `lz4_flex::frame::FrameDecoder`, read to its end with
/// `read_to_end`: the result depends on `frame` alone.
#[verifier::external_body]
pub(crate) fn decompress_frame(frame: &[u8]) -> (r: Result<Vec<u8>, std::io::Error>)
    ensures
        r is Ok <==> lz4_frame_content(frame@) is Some,
        r matches Ok(c) ==> lz4_frame_content(frame@) == Some(c@),
{
    let mut out = Vec::new();
    std::io::Read::read_to_end(&mut lz4_flex::frame::FrameDecoder::new(frame), &mut out)?;
    Ok(out)
}

} // verus!
