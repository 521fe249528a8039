use meshlet_codec::asset::MeshletMesh;
use meshlet_codec::bytes::{push_u32, push_u64, read_u32, read_u64};
use meshlet_codec::codec::{
    decode, encode, frame_stream, MESHLET_MESH_ASSET_MAGIC, MESHLET_MESH_ASSET_VERSION,
};
use meshlet_codec::element::{BoundingSphere, Meshlet, VertexPosition, VertexUv};
use meshlet_codec::error::CodecError;
use meshlet_codec::framing::is_closed_frame;
use meshlet_codec::payload::{decode_payload, encode_payload};

fn pos(x: f32, y: f32, z: f32) -> VertexPosition {
    VertexPosition { x: x.to_bits(), y: y.to_bits(), z: z.to_bits() }
}

fn uv(u: f32, v: f32) -> VertexUv {
    VertexUv { u: u.to_bits(), v: v.to_bits() }
}

fn empty_mesh() -> MeshletMesh {
    MeshletMesh {
        vertex_positions: vec![],
        vertex_normals: vec![],
        vertex_uvs: vec![],
        indices: vec![],
        meshlets: vec![],
        meshlet_bounding_spheres: vec![],
        meshlet_simplification_errors: vec![],
    }
}

fn triangle_mesh() -> MeshletMesh {
    MeshletMesh {
        vertex_positions: vec![pos(0.0, 0.0, 0.0), pos(1.0, 0.0, 0.0), pos(0.0, 1.0, 0.0)],
        vertex_normals: vec![0x7f7f_ff00, 0x7f7f_ff00, 0x7f7f_ff00],
        vertex_uvs: vec![uv(0.0, 0.0), uv(1.0, 0.0), uv(0.0, 1.0)],
        indices: vec![0, 1, 2],
        meshlets: vec![Meshlet {
            start_vertex_id: 0,
            start_index_id: 0,
            vertex_count: 3,
            triangle_count: 1,
        }],
        meshlet_bounding_spheres: vec![BoundingSphere {
            center_x: 0.5f32.to_bits(),
            center_y: 0.5f32.to_bits(),
            center_z: 0.0f32.to_bits(),
            radius: 0.75f32.to_bits(),
        }],
        meshlet_simplification_errors: vec![0.0f32.to_bits()],
    }
}

fn same(a: &MeshletMesh, b: &MeshletMesh) -> bool {
    a.vertex_positions == b.vertex_positions
        && a.vertex_normals == b.vertex_normals
        && a.vertex_uvs == b.vertex_uvs
        && a.indices == b.indices
        && a.meshlets == b.meshlets
        && a.meshlet_bounding_spheres == b.meshlet_bounding_spheres
        && a.meshlet_simplification_errors == b.meshlet_simplification_errors
}

fn header(magic: u64, version: u64) -> Vec<u8> {
    let mut out = Vec::new();
    out.extend_from_slice(&magic.to_le_bytes());
    out.extend_from_slice(&version.to_le_bytes());
    out
}

#[test]
fn triangle_scenario_round_trips() {
    let mesh = triangle_mesh();
    let bytes = encode(&mesh).unwrap();
    let back = decode(&bytes).unwrap();
    assert!(same(&mesh, &back));
    assert_eq!(back.vertex_positions.len(), 3);
    assert_eq!(back.indices, vec![0, 1, 2]);
    assert_eq!(back.meshlets.len(), 1);
    assert_eq!(back.meshlets[0].vertex_count, 3);
    assert_eq!(back.meshlets[0].triangle_count, 1);
    assert_eq!(back.meshlet_bounding_spheres.len(), 1);
    assert_eq!(f32::from_bits(back.meshlet_bounding_spheres[0].radius), 0.75);
    assert_eq!(back.meshlet_simplification_errors.len(), 1);
    assert_eq!(f32::from_bits(back.meshlet_simplification_errors[0]), 0.0);
    assert_eq!(f32::from_bits(back.vertex_positions[1].x), 1.0);
    assert_eq!(f32::from_bits(back.vertex_uvs[2].v), 1.0);
}

#[test]
fn empty_mesh_round_trips() {
    let mesh = empty_mesh();
    let bytes = encode(&mesh).unwrap();
    let back = decode(&bytes).unwrap();
    assert!(same(&mesh, &back));
    assert!(back.vertex_positions.is_empty());
    assert!(back.meshlet_simplification_errors.is_empty());
}

#[test]
fn larger_mesh_round_trips() {
    let n: u32 = 3000;
    let mut mesh = empty_mesh();
    for i in 0..n {
        mesh.vertex_positions.push(pos(i as f32, (i * 2) as f32, 0.5));
        mesh.vertex_normals.push(i.wrapping_mul(2654435761));
        mesh.vertex_uvs.push(uv(0.25, i as f32));
        mesh.indices.push((i * 7) % n);
    }
    for i in 0..(n / 3) {
        mesh.meshlets.push(Meshlet {
            start_vertex_id: i * 3,
            start_index_id: i * 3,
            vertex_count: 3,
            triangle_count: 1,
        });
        mesh.meshlet_bounding_spheres.push(BoundingSphere {
            center_x: i,
            center_y: i + 1,
            center_z: i + 2,
            radius: 1.0f32.to_bits(),
        });
        mesh.meshlet_simplification_errors.push((i as f32 * 0.125).to_bits());
    }
    assert!(mesh.is_valid());
    let bytes = encode(&mesh).unwrap();
    let back = decode(&bytes).unwrap();
    assert!(same(&mesh, &back));
}

#[test]
fn stream_starts_with_magic_and_version() {
    let bytes = encode(&triangle_mesh()).unwrap();
    assert_eq!(&bytes[0..8], &1717551717668u64.to_le_bytes());
    assert_eq!(&bytes[8..16], &1u64.to_le_bytes());
    assert_eq!(MESHLET_MESH_ASSET_MAGIC, 1717551717668);
    assert_eq!(MESHLET_MESH_ASSET_VERSION, 1);
}

#[test]
fn payload_is_compressed_into_an_lz4_frame() {
    let mesh = triangle_mesh();
    let bytes = encode(&mesh).unwrap();
    let payload = encode_payload(&mesh);
    assert_ne!(&bytes[16..], &payload[..]);
    assert_eq!(&bytes[16..20], &[0x04, 0x22, 0x4d, 0x18]);
    assert_eq!(&bytes[bytes.len() - 4..], &[0, 0, 0, 0]);
}

#[test]
fn wrong_magic_is_rejected() {
    let mut bytes = encode(&triangle_mesh()).unwrap();
    bytes[0] ^= 1;
    assert_eq!(decode(&bytes).err(), Some(CodecError::InvalidMagic));
    let mut other = header(42, 1);
    other.extend_from_slice(&[1, 2, 3, 4, 5]);
    assert_eq!(decode(&other).err(), Some(CodecError::InvalidMagic));
    assert_eq!(decode(&header(0, 0)[0..8]).err(), Some(CodecError::InvalidMagic));
}

#[test]
fn other_version_is_rejected_with_its_value() {
    let good = encode(&triangle_mesh()).unwrap();
    let mut bytes = header(1717551717668, 2);
    bytes.extend_from_slice(&good[16..]);
    assert_eq!(decode(&bytes).err(), Some(CodecError::UnsupportedVersion(2)));
    let bytes = header(1717551717668, 0x0102_0304_0506_0708);
    assert_eq!(
        decode(&bytes).err(),
        Some(CodecError::UnsupportedVersion(0x0102_0304_0506_0708))
    );
}

#[test]
fn truncated_header_is_an_io_failure() {
    let bytes = encode(&triangle_mesh()).unwrap();
    for n in 0..16 {
        assert_eq!(decode(&bytes[..n]).err(), Some(CodecError::IoFailure));
    }
}

#[test]
fn truncated_frame_is_rejected() {
    for mesh in [empty_mesh(), triangle_mesh()] {
        let bytes = encode(&mesh).unwrap();
        for n in 16..bytes.len() {
            assert_eq!(
                decode(&bytes[..n]).err(),
                Some(CodecError::FramingCorruption),
                "cut at {}",
                n
            );
        }
    }
}

#[test]
fn cut_inside_end_mark_is_rejected() {
    let bytes = encode(&triangle_mesh()).unwrap();
    for k in 1..5 {
        assert_eq!(
            decode(&bytes[..bytes.len() - k]).err(),
            Some(CodecError::FramingCorruption)
        );
    }
}

#[test]
fn closed_frames_are_recognised() {
    let bytes = encode(&triangle_mesh()).unwrap();
    let frame = &bytes[16..];
    assert!(is_closed_frame(frame));
    for n in 0..frame.len() {
        assert!(!is_closed_frame(&frame[..n]));
    }
    let mut longer = frame.to_vec();
    longer.push(0);
    assert!(!is_closed_frame(&longer));
    // header with no optional fields, one uncompressed block of 2 bytes, end mark
    let plain = [0x04, 0x22, 0x4d, 0x18, 0x60, 0x40, 0x82, 2, 0, 0, 0x80, 7, 7, 0, 0, 0, 0];
    assert!(is_closed_frame(&plain));
    // with a content checksum after the end mark
    let summed = [0x04, 0x22, 0x4d, 0x18, 0x64, 0x40, 0x82, 0, 0, 0, 0, 1, 2, 3, 4];
    assert!(is_closed_frame(&summed));
    assert!(!is_closed_frame(&summed[..14]));
    // with a content size in the header and a checksum after each block
    let sized = [
        0x04, 0x22, 0x4d, 0x18, 0x78, 0x40, 1, 0, 0, 0, 0, 0, 0, 0, 0x82, 1, 0, 0, 0x80, 5, 9,
        9, 9, 9, 0, 0, 0, 0,
    ];
    assert!(is_closed_frame(&sized));
    assert!(!is_closed_frame(&[0x04, 0x22, 0x4d, 0x19, 0x60, 0x40, 0x82, 0, 0, 0, 0]));
}

#[test]
fn closed_but_undecodable_frame_is_rejected() {
    let mut bytes = header(1717551717668, 1);
    // the flag byte names an unsupported frame version
    bytes.extend_from_slice(&[0x04, 0x22, 0x4d, 0x18, 0x00, 0x40, 0x82, 0, 0, 0, 0]);
    assert_eq!(decode(&bytes).err(), Some(CodecError::FramingCorruption));
}

#[test]
fn empty_mesh_stream_layout() {
    let bytes = encode(&empty_mesh()).unwrap();
    assert_eq!(&bytes[0..16], &header(1717551717668, 1)[..]);
    assert!(is_closed_frame(&bytes[16..]));
    assert!(decode(&bytes).is_ok());
}

#[test]
fn corrupt_frame_is_rejected() {
    let mut bytes = header(1717551717668, 1);
    bytes.extend_from_slice(&[9, 9, 9, 9, 9, 9, 9, 9, 9, 9]);
    assert_eq!(decode(&bytes).err(), Some(CodecError::FramingCorruption));
}

#[test]
fn mismatched_meshlet_arrays_are_malformed() {
    let mut mesh = triangle_mesh();
    mesh.meshlet_bounding_spheres.push(mesh.meshlet_bounding_spheres[0]);
    assert!(!mesh.is_valid());
    let bytes = encode(&mesh).unwrap();
    assert_eq!(decode(&bytes).err(), Some(CodecError::MalformedAsset));
}

#[test]
fn mismatched_vertex_arrays_are_malformed() {
    let mut mesh = triangle_mesh();
    mesh.vertex_uvs.pop();
    let bytes = encode(&mesh).unwrap();
    assert_eq!(decode(&bytes).err(), Some(CodecError::MalformedAsset));
}

#[test]
fn out_of_range_index_is_malformed() {
    let mut mesh = triangle_mesh();
    mesh.indices[2] = 3;
    assert!(!mesh.is_valid());
    let bytes = encode(&mesh).unwrap();
    assert_eq!(decode(&bytes).err(), Some(CodecError::MalformedAsset));
}

#[test]
fn partial_triangle_is_malformed() {
    let mut mesh = triangle_mesh();
    mesh.indices.push(0);
    let bytes = encode(&mesh).unwrap();
    assert_eq!(decode(&bytes).err(), Some(CodecError::MalformedAsset));
}

#[test]
fn valid_meshes_are_recognised() {
    assert!(empty_mesh().is_valid());
    assert!(triangle_mesh().is_valid());
}

#[test]
fn empty_payload_layout() {
    let payload = encode_payload(&empty_mesh());
    assert_eq!(payload, vec![0u8; 56]);
}

#[test]
fn triangle_payload_layout() {
    let payload = encode_payload(&triangle_mesh());
    // seven counts, then 3*12 + 3*4 + 3*8 + 3*4 + 16 + 16 + 4 bytes of elements
    assert_eq!(payload.len(), 56 + 36 + 12 + 24 + 12 + 16 + 16 + 4);
    assert_eq!(&payload[0..8], &3u64.to_le_bytes());
    assert_eq!(&payload[8..12], &0u32.to_le_bytes());
    assert_eq!(&payload[20..24], &1.0f32.to_bits().to_le_bytes());
    let indices_at = 8 + 36 + 8 + 12 + 8 + 24;
    assert_eq!(&payload[indices_at..indices_at + 8], &3u64.to_le_bytes());
    assert_eq!(&payload[indices_at + 8..indices_at + 20], &[0, 0, 0, 0, 1, 0, 0, 0, 2, 0, 0, 0]);
    let last = payload.len() - 12;
    assert_eq!(&payload[last..last + 8], &1u64.to_le_bytes());
    assert_eq!(&payload[last + 8..], &[0, 0, 0, 0]);
}

#[test]
fn payload_round_trips_without_compression() {
    let mesh = triangle_mesh();
    let back = decode_payload(&encode_payload(&mesh)).unwrap();
    assert!(same(&mesh, &back));
}

#[test]
fn short_payload_is_framing_corruption() {
    let payload = encode_payload(&triangle_mesh());
    for n in 0..payload.len() {
        assert_eq!(decode_payload(&payload[..n]).err(), Some(CodecError::FramingCorruption));
    }
}

#[test]
fn huge_count_is_framing_corruption() {
    let mut payload = Vec::new();
    payload.extend_from_slice(&u64::MAX.to_le_bytes());
    payload.extend_from_slice(&[0u8; 64]);
    assert_eq!(decode_payload(&payload).err(), Some(CodecError::FramingCorruption));
}

#[test]
fn trailing_payload_bytes_are_not_read() {
    let mesh = triangle_mesh();
    let mut payload = encode_payload(&mesh);
    payload.extend_from_slice(&[1, 2, 3]);
    let back = decode_payload(&payload).unwrap();
    assert!(same(&mesh, &back));
}

#[test]
fn frame_stream_prefixes_header() {
    let out = frame_stream(&[7, 8, 9]);
    let mut expected = header(1717551717668, 1);
    expected.extend_from_slice(&[7, 8, 9]);
    assert_eq!(out, expected);
}

#[test]
fn integers_are_little_endian() {
    let mut out = Vec::new();
    push_u32(&mut out, 0x0403_0201);
    push_u64(&mut out, 0x0c0b_0a09_0807_0605);
    assert_eq!(out, vec![1, 2, 3, 4, 5, 6, 7, 8, 9, 10, 11, 12]);
    assert_eq!(read_u32(&out, 0), 0x0403_0201);
    assert_eq!(read_u64(&out, 4), 0x0c0b_0a09_0807_0605);
    assert_eq!(read_u32(&out, 1), 0x0504_0302);
}
