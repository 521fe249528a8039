//! The asset stream: an 8-byte magic number, an 8-byte format version, then
//! one LZ4 frame that holds the payload.

use vstd::prelude::*;
use vstd::slice::slice_subrange;
use crate::asset::{MeshletMesh, MeshletMeshView};
use crate::bytes::{le_u64, lemma_u64_round_trip, push_u64, read_u64, u64_le};
use crate::error::CodecError;
use crate::frame::{compress_frame, decompress_frame, lz4_frame_content};
use crate::framing::{frame_closed, is_closed_frame, lemma_cut_frame_not_closed};
use crate::payload::{
    decode_payload,
    encode_payload,
    lemma_payload_rejects_malformed,
    lemma_payload_round_trip,
    lemma_payload_truncated,
    parse_payload,
    payload_of,
};

verus! {

/// The number that opens every meshlet mesh asset stream.
pub const MESHLET_MESH_ASSET_MAGIC: u64 = 1717551717668;

/// The one format version this codec reads and writes.
pub const MESHLET_MESH_ASSET_VERSION: u64 = 1;

/// The 16 header bytes: magic number, then version.
pub open spec fn header_bytes() -> Seq<u8> {
    u64_le(MESHLET_MESH_ASSET_MAGIC) + u64_le(MESHLET_MESH_ASSET_VERSION)
}

/// What decoding the stream `b` gives.
pub open spec fn decode_result(b: Seq<u8>) -> Result<MeshletMeshView, CodecError> {
    if b.len() < 8 {
        Err(CodecError::IoFailure)
    } else if le_u64(b.subrange(0, 8)) != MESHLET_MESH_ASSET_MAGIC {
        Err(CodecError::InvalidMagic)
    } else if b.len() < 16 {
        Err(CodecError::IoFailure)
    } else if le_u64(b.subrange(8, 16)) != MESHLET_MESH_ASSET_VERSION {
        Err(CodecError::UnsupportedVersion(le_u64(b.subrange(8, 16))))
    } else if !frame_closed(b.subrange(16, b.len() as int)) {
        Err(CodecError::FramingCorruption)
    } else {
        match lz4_frame_content(b.subrange(16, b.len() as int)) {
            None => Err(CodecError::FramingCorruption),
            Some(payload) => parse_payload(payload),
        }
    }
}

/// The stream that carries the compressed payload `frame`: the header, then
/// the frame.
pub fn frame_stream(frame: &[u8]) -> (r: Vec<u8>)
    ensures
        r@ == header_bytes() + frame@,
{
    let mut out: Vec<u8> = Vec::new();
    push_u64(&mut out, MESHLET_MESH_ASSET_MAGIC);
    push_u64(&mut out, MESHLET_MESH_ASSET_VERSION);
    let mut i: usize = 0;
    while i < frame.len()
        invariant
            i <= frame@.len(),
            out@ == header_bytes() + frame@.subrange(0, i as int),
        decreases frame@.len() - i,
    {
        out.push(frame[i]);
        assert(frame@.subrange(0, i + 1) =~= frame@.subrange(0, i as int).push(frame@[i as int]));
        i += 1;
    }
    assert(frame@.subrange(0, frame@.len() as int) =~= frame@);
    out
}

/// Encodes `m` as an asset stream: the header, then one closed LZ4 frame that
/// holds the payload of `m`. A mesh that meets its invariants decodes from the
/// stream as itself, field for field and element for element; one that does
/// not is rejected as malformed.
pub fn encode(m: &MeshletMesh) -> (r: Result<Vec<u8>, CodecError>)
    ensures
        r is Ok,
        r matches Ok(b) ==> b@.len() >= 16 && b@.subrange(0, 16) == header_bytes(),
        r matches Ok(b) ==> frame_closed(b@.subrange(16, b@.len() as int)),
        r matches Ok(b) ==> lz4_frame_content(b@.subrange(16, b@.len() as int)) == Some(
            payload_of(m@),
        ),
        r matches Ok(b) ==> decode_result(b@) == (if m@.wf() {
            Ok::<MeshletMeshView, CodecError>(m@)
        } else {
            Err::<MeshletMeshView, CodecError>(CodecError::MalformedAsset)
        }),
{
    let payload = encode_payload(m);
    match compress_frame(payload.as_slice()) {
        Ok(frame) => {
            let out = frame_stream(frame.as_slice());
            proof {
                lemma_header_fields();
                assert(out@.subrange(0, 16) =~= header_bytes());
                assert(out@.subrange(0, 8) =~= u64_le(MESHLET_MESH_ASSET_MAGIC));
                assert(out@.subrange(8, 16) =~= u64_le(MESHLET_MESH_ASSET_VERSION));
                assert(out@.subrange(16, out@.len() as int) =~= frame@);
                if m@.wf() {
                    lemma_payload_round_trip(m@);
                } else {
                    lemma_payload_rejects_malformed(m@);
                }
            }
            Ok(out)
        },
        Err(_) => Err(CodecError::IoFailure),
    }
}

/// Decodes an asset stream.
pub fn decode(b: &[u8]) -> (r: Result<MeshletMesh, CodecError>)
    ensures
        match r {
            Ok(m) => decode_result(b@) == Ok::<MeshletMeshView, CodecError>(m@),
            Err(e) => decode_result(b@) == Err::<MeshletMeshView, CodecError>(e),
        },
{
    let len = b.len();
    if len < 8 {
        return Err(CodecError::IoFailure);
    }
    let magic = read_u64(b, 0);
    if magic != MESHLET_MESH_ASSET_MAGIC {
        return Err(CodecError::InvalidMagic);
    }
    if len < 16 {
        return Err(CodecError::IoFailure);
    }
    let version = read_u64(b, 8);
    if version != MESHLET_MESH_ASSET_VERSION {
        return Err(CodecError::UnsupportedVersion(version));
    }
    let frame = slice_subrange(b, 16, len);
    if !is_closed_frame(frame) {
        return Err(CodecError::FramingCorruption);
    }
    match decompress_frame(frame) {
        Ok(payload) => decode_payload(payload.as_slice()),
        Err(_) => Err(CodecError::FramingCorruption),
    }
}

proof fn lemma_header_fields()
    ensures
        header_bytes().len() == 16,
        le_u64(u64_le(MESHLET_MESH_ASSET_MAGIC)) == MESHLET_MESH_ASSET_MAGIC,
        le_u64(u64_le(MESHLET_MESH_ASSET_VERSION)) == MESHLET_MESH_ASSET_VERSION,
{
    lemma_u64_round_trip(MESHLET_MESH_ASSET_MAGIC);
    lemma_u64_round_trip(MESHLET_MESH_ASSET_VERSION);
}

/// A stream whose first eight bytes are not the magic number is rejected for
/// its magic, whatever follows.
pub proof fn lemma_magic_rejected(b: Seq<u8>)
    requires
        b.len() >= 8,
        le_u64(b.subrange(0, 8)) != MESHLET_MESH_ASSET_MAGIC,
    ensures
        decode_result(b) == Err::<MeshletMeshView, CodecError>(CodecError::InvalidMagic),
{
}

/// A stream with the magic number and another version is rejected, carrying
/// the version it names.
pub proof fn lemma_version_rejected(b: Seq<u8>)
    requires
        b.len() >= 16,
        le_u64(b.subrange(0, 8)) == MESHLET_MESH_ASSET_MAGIC,
        le_u64(b.subrange(8, 16)) != MESHLET_MESH_ASSET_VERSION,
    ensures
        decode_result(b) == Err::<MeshletMeshView, CodecError>(
            CodecError::UnsupportedVersion(le_u64(b.subrange(8, 16))),
        ),
{
}

/// A stream that holds the header and a closed frame, cut anywhere before its
/// end, is rejected: as an I/O failure when the cut falls inside the header,
/// as a corrupt frame after it. This holds of every stream that `encode`
/// writes.
pub proof fn lemma_cut_stream_rejected(b: Seq<u8>, n: int)
    requires
        b.len() >= 16,
        b.subrange(0, 16) == header_bytes(),
        frame_closed(b.subrange(16, b.len() as int)),
        0 <= n < b.len(),
    ensures
        decode_result(b.subrange(0, n)) == Err::<MeshletMeshView, CodecError>(
            if n < 16 {
                CodecError::IoFailure
            } else {
                CodecError::FramingCorruption
            },
        ),
{
    lemma_header_fields();
    let c = b.subrange(0, n);
    if n >= 8 {
        assert(c.subrange(0, 8) =~= b.subrange(0, 16).subrange(0, 8));
        assert(header_bytes().subrange(0, 8) =~= u64_le(MESHLET_MESH_ASSET_MAGIC));
    }
    if n >= 16 {
        assert(c.subrange(8, 16) =~= b.subrange(0, 16).subrange(8, 16));
        assert(header_bytes().subrange(8, 16) =~= u64_le(MESHLET_MESH_ASSET_VERSION));
        let f = b.subrange(16, b.len() as int);
        assert(c.subrange(16, n) =~= f.subrange(0, n - 16));
        lemma_cut_frame_not_closed(f, n - 16);
    }
}

/// A stream whose frame is closed but reads back as only part of the payload
/// written for `m`, cut anywhere before its end, is rejected as a corrupt
/// frame.
pub proof fn lemma_cut_payload_rejected(m: MeshletMeshView, frame: Seq<u8>, n: int)
    requires
        m.counts_fit(),
        0 <= n < payload_of(m).len(),
        frame_closed(frame),
        lz4_frame_content(frame) == Some(payload_of(m).subrange(0, n)),
    ensures
        decode_result(header_bytes() + frame) == Err::<MeshletMeshView, CodecError>(
            CodecError::FramingCorruption,
        ),
{
    lemma_header_fields();
    let b = header_bytes() + frame;
    assert(b.subrange(0, 8) =~= u64_le(MESHLET_MESH_ASSET_MAGIC));
    assert(b.subrange(8, 16) =~= u64_le(MESHLET_MESH_ASSET_VERSION));
    assert(b.subrange(16, b.len() as int) =~= frame);
    lemma_payload_truncated(m, n);
}

} // verus!
