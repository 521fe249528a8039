//! The uncompressed payload: the seven typed-array records of a mesh, in the
//! fixed order positions, normals, uvs, indices, meshlets, bounding spheres,
//! simplification errors.

use vstd::prelude::*;
use crate::asset::{MeshletMesh, MeshletMeshView};
use crate::element::{BoundingSphere, Meshlet, VertexPosition, VertexUv};
use crate::error::CodecError;
use crate::record::{
    lemma_parse_record_bytes,
    lemma_parse_record_prefix,
    parse_record,
    read_record,
    record_bytes,
    write_record,
};

verus! {

/// The payload bytes of `m`.
pub open spec fn payload_of(m: MeshletMeshView) -> Seq<u8> {
    record_bytes(m.vertex_positions) + record_bytes(m.vertex_normals) + record_bytes(m.vertex_uvs)
        + record_bytes(m.indices) + record_bytes(m.meshlets) + record_bytes(
        m.meshlet_bounding_spheres,
    ) + record_bytes(m.meshlet_simplification_errors)
}

/// The mesh that the payload `b` holds: the seven records read in order, then
/// checked against the mesh invariants. Bytes after the last record are not read.
pub open spec fn parse_payload(b: Seq<u8>) -> Result<MeshletMeshView, CodecError> {
    match parse_record::<VertexPosition>(b, 0) {
        None => Err(CodecError::FramingCorruption),
        Some((vertex_positions, p1)) => match parse_record::<u32>(b, p1) {
            None => Err(CodecError::FramingCorruption),
            Some((vertex_normals, p2)) => match parse_record::<VertexUv>(b, p2) {
                None => Err(CodecError::FramingCorruption),
                Some((vertex_uvs, p3)) => match parse_record::<u32>(b, p3) {
                    None => Err(CodecError::FramingCorruption),
                    Some((indices, p4)) => match parse_record::<Meshlet>(b, p4) {
                        None => Err(CodecError::FramingCorruption),
                        Some((meshlets, p5)) => match parse_record::<BoundingSphere>(b, p5) {
                            None => Err(CodecError::FramingCorruption),
                            Some((meshlet_bounding_spheres, p6)) => match parse_record::<u32>(
                                b,
                                p6,
                            ) {
                                None => Err(CodecError::FramingCorruption),
                                Some((meshlet_simplification_errors, _)) => {
                                    let m = MeshletMeshView {
                                        vertex_positions,
                                        vertex_normals,
                                        vertex_uvs,
                                        indices,
                                        meshlets,
                                        meshlet_bounding_spheres,
                                        meshlet_simplification_errors,
                                    };
                                    if m.wf() {
                                        Ok(m)
                                    } else {
                                        Err(CodecError::MalformedAsset)
                                    }
                                },
                            },
                        },
                    },
                },
            },
        },
    }
}

/// Writes the payload of `m`.
pub fn encode_payload(m: &MeshletMesh) -> (r: Vec<u8>)
    ensures
        r@ == payload_of(m@),
        m@.counts_fit(),
{
    let mut out: Vec<u8> = Vec::new();
    write_record(&mut out, &m.vertex_positions);
    write_record(&mut out, &m.vertex_normals);
    write_record(&mut out, &m.vertex_uvs);
    write_record(&mut out, &m.indices);
    write_record(&mut out, &m.meshlets);
    write_record(&mut out, &m.meshlet_bounding_spheres);
    write_record(&mut out, &m.meshlet_simplification_errors);
    assert(out@ =~= payload_of(m@));
    out
}

/// Reads a mesh from the payload `b`.
pub fn decode_payload(b: &[u8]) -> (r: Result<MeshletMesh, CodecError>)
    ensures
        match r {
            Ok(m) => parse_payload(b@) == Ok::<MeshletMeshView, CodecError>(m@),
            Err(e) => parse_payload(b@) == Err::<MeshletMeshView, CodecError>(e),
        },
{
    let (vertex_positions, p1) = match read_record::<VertexPosition>(b, 0) {
        Some(x) => x,
        None => return Err(CodecError::FramingCorruption),
    };
    let (vertex_normals, p2) = match read_record::<u32>(b, p1) {
        Some(x) => x,
        None => return Err(CodecError::FramingCorruption),
    };
    let (vertex_uvs, p3) = match read_record::<VertexUv>(b, p2) {
        Some(x) => x,
        None => return Err(CodecError::FramingCorruption),
    };
    let (indices, p4) = match read_record::<u32>(b, p3) {
        Some(x) => x,
        None => return Err(CodecError::FramingCorruption),
    };
    let (meshlets, p5) = match read_record::<Meshlet>(b, p4) {
        Some(x) => x,
        None => return Err(CodecError::FramingCorruption),
    };
    let (meshlet_bounding_spheres, p6) = match read_record::<BoundingSphere>(b, p5) {
        Some(x) => x,
        None => return Err(CodecError::FramingCorruption),
    };
    let (meshlet_simplification_errors, _) = match read_record::<u32>(b, p6) {
        Some(x) => x,
        None => return Err(CodecError::FramingCorruption),
    };
    let m = MeshletMesh {
        vertex_positions,
        vertex_normals,
        vertex_uvs,
        indices,
        meshlets,
        meshlet_bounding_spheres,
        meshlet_simplification_errors,
    };
    if m.is_valid() {
        Ok(m)
    } else {
        Err(CodecError::MalformedAsset)
    }
}

/// The byte position in `payload_of(m)` where the first `k` records end.
pub open spec fn record_end(m: MeshletMeshView, k: nat) -> int {
    (if k >= 1 { record_bytes(m.vertex_positions).len() as int } else { 0 })
        + (if k >= 2 { record_bytes(m.vertex_normals).len() as int } else { 0 })
        + (if k >= 3 { record_bytes(m.vertex_uvs).len() as int } else { 0 })
        + (if k >= 4 { record_bytes(m.indices).len() as int } else { 0 })
        + (if k >= 5 { record_bytes(m.meshlets).len() as int } else { 0 })
        + (if k >= 6 { record_bytes(m.meshlet_bounding_spheres).len() as int } else { 0 })
        + (if k >= 7 { record_bytes(m.meshlet_simplification_errors).len() as int } else { 0 })
}

proof fn lemma_split_prefix(b: Seq<u8>, pre: Seq<u8>, r: Seq<u8>)
    requires
        (pre + r).len() <= b.len(),
        b.subrange(0, (pre + r).len() as int) == pre + r,
    ensures
        b.subrange(0, pre.len() as int) == pre,
        b.subrange(pre.len() as int, (pre + r).len() as int) == r,
{
    assert(b.subrange(0, pre.len() as int) =~= (pre + r).subrange(0, pre.len() as int));
    assert(b.subrange(pre.len() as int, (pre + r).len() as int) =~= (pre + r).subrange(
        pre.len() as int,
        (pre + r).len() as int,
    ));
}

proof fn lemma_payload_records(m: MeshletMeshView)
    requires
        m.counts_fit(),
    ensures
        parse_record::<VertexPosition>(payload_of(m), record_end(m, 0)) == Some(
            (m.vertex_positions, record_end(m, 1)),
        ),
        parse_record::<u32>(payload_of(m), record_end(m, 1)) == Some(
            (m.vertex_normals, record_end(m, 2)),
        ),
        parse_record::<VertexUv>(payload_of(m), record_end(m, 2)) == Some(
            (m.vertex_uvs, record_end(m, 3)),
        ),
        parse_record::<u32>(payload_of(m), record_end(m, 3)) == Some(
            (m.indices, record_end(m, 4)),
        ),
        parse_record::<Meshlet>(payload_of(m), record_end(m, 4)) == Some(
            (m.meshlets, record_end(m, 5)),
        ),
        parse_record::<BoundingSphere>(payload_of(m), record_end(m, 5)) == Some(
            (m.meshlet_bounding_spheres, record_end(m, 6)),
        ),
        parse_record::<u32>(payload_of(m), record_end(m, 6)) == Some(
            (m.meshlet_simplification_errors, record_end(m, 7)),
        ),
        payload_of(m).len() == record_end(m, 7),
{
    let b = payload_of(m);
    let r1 = record_bytes(m.vertex_positions);
    let r2 = record_bytes(m.vertex_normals);
    let r3 = record_bytes(m.vertex_uvs);
    let r4 = record_bytes(m.indices);
    let r5 = record_bytes(m.meshlets);
    let r6 = record_bytes(m.meshlet_bounding_spheres);
    let r7 = record_bytes(m.meshlet_simplification_errors);
    let p0 = Seq::<u8>::empty();
    let p1 = r1;
    let p2 = p1 + r2;
    let p3 = p2 + r3;
    let p4 = p3 + r4;
    let p5 = p4 + r5;
    let p6 = p5 + r6;
    let p7 = p6 + r7;
    assert(b.subrange(0, b.len() as int) =~= p7);
    lemma_split_prefix(b, p6, r7);
    lemma_split_prefix(b, p5, r6);
    lemma_split_prefix(b, p4, r5);
    lemma_split_prefix(b, p3, r4);
    lemma_split_prefix(b, p2, r3);
    lemma_split_prefix(b, p1, r2);
    lemma_split_prefix(b, p0, r1);
    assert(p0 + r1 =~= p1);
    assert(record_end(m, 1) == p1.len());
    assert(record_end(m, 2) == p2.len());
    assert(record_end(m, 3) == p3.len());
    assert(record_end(m, 4) == p4.len());
    assert(record_end(m, 5) == p5.len());
    assert(record_end(m, 6) == p6.len());
    assert(record_end(m, 7) == p7.len());
    lemma_parse_record_bytes::<VertexPosition>(b, p0.len() as int, m.vertex_positions);
    lemma_parse_record_bytes::<u32>(b, p1.len() as int, m.vertex_normals);
    lemma_parse_record_bytes::<VertexUv>(b, p2.len() as int, m.vertex_uvs);
    lemma_parse_record_bytes::<u32>(b, p3.len() as int, m.indices);
    lemma_parse_record_bytes::<Meshlet>(b, p4.len() as int, m.meshlets);
    lemma_parse_record_bytes::<BoundingSphere>(b, p5.len() as int, m.meshlet_bounding_spheres);
    lemma_parse_record_bytes::<u32>(b, p6.len() as int, m.meshlet_simplification_errors);
}

proof fn lemma_parse_payload_of(m: MeshletMeshView)
    requires
        m.counts_fit(),
    ensures
        parse_payload(payload_of(m)) == (if m.wf() {
            Ok::<MeshletMeshView, CodecError>(m)
        } else {
            Err::<MeshletMeshView, CodecError>(CodecError::MalformedAsset)
        }),
{
    lemma_payload_records(m);
}

/// A mesh that meets its invariants is read back, field for field and element
/// for element, from the payload written for it.
pub proof fn lemma_payload_round_trip(m: MeshletMeshView)
    requires
        m.wf(),
        m.counts_fit(),
    ensures
        parse_payload(payload_of(m)) == Ok::<MeshletMeshView, CodecError>(m),
{
    lemma_parse_payload_of(m);
}

/// Well-framed records whose arrays break an invariant of a mesh (lengths that
/// disagree, an index past the vertices, a partial triangle) are rejected as a
/// malformed asset.
pub proof fn lemma_payload_rejects_malformed(m: MeshletMeshView)
    requires
        !m.wf(),
        m.counts_fit(),
    ensures
        parse_payload(payload_of(m)) == Err::<MeshletMeshView, CodecError>(
            CodecError::MalformedAsset,
        ),
{
    lemma_parse_payload_of(m);
}

/// A payload cut anywhere before its end is rejected as a corrupt frame.
pub proof fn lemma_payload_truncated(m: MeshletMeshView, n: int)
    requires
        m.counts_fit(),
        0 <= n < payload_of(m).len(),
    ensures
        parse_payload(payload_of(m).subrange(0, n)) == Err::<MeshletMeshView, CodecError>(
            CodecError::FramingCorruption,
        ),
{
    lemma_payload_records(m);
    let b = payload_of(m);
    lemma_parse_record_prefix::<VertexPosition>(b, record_end(m, 0), n);
    lemma_parse_record_prefix::<u32>(b, record_end(m, 1), n);
    lemma_parse_record_prefix::<VertexUv>(b, record_end(m, 2), n);
    lemma_parse_record_prefix::<u32>(b, record_end(m, 3), n);
    lemma_parse_record_prefix::<Meshlet>(b, record_end(m, 4), n);
    lemma_parse_record_prefix::<BoundingSphere>(b, record_end(m, 5), n);
    lemma_parse_record_prefix::<u32>(b, record_end(m, 6), n);
}

} // verus!
