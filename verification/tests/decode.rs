use gltf_mesh::asset::{Accessor, AssetDesc, BufferView, DecodeError, MeshDesc, Primitive};
use gltf_mesh::codec::{read_u16_le, read_u32_le};
use gltf_mesh::laws::encode_positions;
use gltf_mesh::mesh::{decode_indices, decode_vertices, Mesh, Vec3Bits, ONE_F32_BITS};

const F32: u32 = 5126;
const U16: u32 = 5123;

fn asset(buffer_views: Vec<BufferView>, accessors: Vec<Accessor>, meshes: Vec<MeshDesc>) -> AssetDesc {
    AssetDesc { version: "2.0".to_string(), buffer_views, accessors, meshes }
}

fn view(buffer: usize, byte_offset: usize, byte_length: usize) -> BufferView {
    BufferView { buffer, byte_offset, byte_length }
}

fn accessor(buffer_view: usize, component_type: u32, count: usize) -> Accessor {
    Accessor { buffer_view, component_type, count }
}

fn primitive(position: usize, texcoord: usize, indices: usize) -> Primitive {
    Primitive { position: Some(position), texcoord: Some(texcoord), indices: Some(indices) }
}

fn push_f32(bytes: &mut Vec<u8>, value: f32) {
    bytes.extend_from_slice(&value.to_bits().to_le_bytes());
}

/// One buffer holding two triangles' worth of data: three positions,
/// three texture coordinate pairs, three indices. The accessor order is
/// deliberately unlike the buffer-view order, so a decoder that confused
/// the two index spaces would read the wrong ranges.
fn simple_asset() -> (AssetDesc, Vec<Vec<u8>>) {
    let mut bytes = Vec::new();
    // positions: 3 * 12 bytes at offset 0
    for p in [[1.0f32, 2.0, 3.0], [4.0, 5.0, 6.0], [-1.0, 0.5, 0.25]] {
        for c in p {
            push_f32(&mut bytes, c);
        }
    }
    // texture coordinates: 3 * 8 bytes at offset 36
    for uv in [[0.0f32, 0.0], [1.0, 0.0], [0.5, 1.0]] {
        for c in uv {
            push_f32(&mut bytes, c);
        }
    }
    // indices: 3 * 2 bytes at offset 60
    for ix in [0u16, 1, 2] {
        bytes.extend_from_slice(&ix.to_le_bytes());
    }
    let views = vec![view(0, 60, 6), view(0, 0, 36), view(0, 36, 24)];
    // accessor 0: positions (view 1), accessor 1: indices (view 0), accessor 2: uvs (view 2)
    let accessors = vec![accessor(1, F32, 3), accessor(0, U16, 3), accessor(2, F32, 3)];
    let meshes = vec![MeshDesc { primitives: vec![primitive(0, 2, 1)] }];
    (asset(views, accessors, meshes), vec![bytes])
}

#[test]
fn read_u32_le_assembles_low_byte_first() {
    let bytes = vec![0x78, 0x56, 0x34, 0x12, 0xff];
    assert_eq!(read_u32_le(&bytes, 0), 0x1234_5678);
    assert_eq!(read_u16_le(&bytes, 1), 0x3456);
}

#[test]
fn index_decode_pair() {
    let bytes = vec![0x02, 0x00, 0x05, 0x00];
    let mut out = Vec::new();
    decode_indices(&bytes, 0, 2, &mut out);
    assert_eq!(out, vec![2u16, 5]);
}

#[test]
fn encode_positions_writes_little_endian() {
    let one = 1.0f32.to_bits();
    let points = vec![Vec3Bits { x: one, y: 0, z: 0xdead_beef }];
    let bytes = encode_positions(&points);
    assert_eq!(
        bytes,
        vec![0x00, 0x00, 0x80, 0x3f, 0x00, 0x00, 0x00, 0x00, 0xef, 0xbe, 0xad, 0xde]
    );
}

#[test]
fn position_round_trip_is_bit_exact() {
    let triples = [
        [1.5f32, -2.25, 1.0e-7],
        [0.0, -0.0, f32::MIN_POSITIVE],
        [3.4e38, 1.0, -1.0],
        [0.1, 0.2, 0.3],
    ];
    let points: Vec<Vec3Bits> = triples
        .iter()
        .map(|t| Vec3Bits { x: t[0].to_bits(), y: t[1].to_bits(), z: t[2].to_bits() })
        .collect();
    let pos_bytes = encode_positions(&points);
    assert_eq!(pos_bytes.len(), 12 * points.len());
    let uv_bytes = vec![0u8; 8 * points.len()];
    let mut verts = Vec::new();
    decode_vertices(&pos_bytes, 0, &uv_bytes, 0, points.len(), &mut verts);
    assert_eq!(verts.len(), points.len());
    for (vertex, point) in verts.iter().zip(points.iter()) {
        assert_eq!(vertex.position, *point);
    }
}

#[test]
fn full_decode_with_scrambled_accessor_order() {
    let (desc, buffers) = simple_asset();
    let mesh = Mesh::from_asset(&desc, &buffers).unwrap();
    assert_eq!(mesh.verts.len(), 3);
    assert_eq!(mesh.indices, vec![0u16, 1, 2]);
    let v0 = &mesh.verts[0];
    assert_eq!(v0.position.x, 1.0f32.to_bits());
    assert_eq!(v0.position.y, 2.0f32.to_bits());
    assert_eq!(v0.position.z, 3.0f32.to_bits());
    assert_eq!(v0.color.x, ONE_F32_BITS);
    assert_eq!(v0.color.y, ONE_F32_BITS);
    assert_eq!(v0.color.z, ONE_F32_BITS);
    assert_eq!(v0.uv.u, 0.0f32.to_bits());
    assert_eq!(v0.uv.v, 0.0f32.to_bits());
    let v2 = &mesh.verts[2];
    assert_eq!(v2.position.x, (-1.0f32).to_bits());
    assert_eq!(v2.position.y, 0.5f32.to_bits());
    assert_eq!(v2.position.z, 0.25f32.to_bits());
    assert_eq!(v2.uv.u, 0.5f32.to_bits());
    assert_eq!(v2.uv.v, 1.0f32.to_bits());
}

#[test]
fn repeated_decodes_are_identical() {
    let (desc, buffers) = simple_asset();
    let first = Mesh::from_asset(&desc, &buffers).unwrap();
    let second = Mesh::from_asset(&desc, &buffers).unwrap();
    assert_eq!(first.verts, second.verts);
    assert_eq!(first.indices, second.indices);
}

#[test]
fn two_primitives_concatenate_additively() {
    let (desc, buffers) = simple_asset();
    let mut desc = desc;
    let prim = desc.meshes[0].primitives[0];
    desc.meshes[0].primitives.push(prim);
    let mesh = Mesh::from_asset(&desc, &buffers).unwrap();
    assert_eq!(mesh.verts.len(), 6);
    assert_eq!(mesh.indices, vec![0u16, 1, 2, 0, 1, 2]);
    assert_eq!(mesh.verts[0], mesh.verts[3]);
}

#[test]
fn unsupported_version_is_rejected() {
    let (desc, buffers) = simple_asset();
    let mut desc = desc;
    desc.version = "1.0".to_string();
    assert_eq!(Mesh::from_asset(&desc, &buffers), Err(DecodeError::UnsupportedVersion));
}

#[test]
fn oversized_view_fails_never_truncates() {
    let (desc, buffers) = simple_asset();
    let mut desc = desc;
    // The position view now claims one byte past the end of its buffer.
    desc.buffer_views[1] = view(0, 0, buffers[0].len() + 1);
    assert_eq!(
        Mesh::from_asset(&desc, &buffers),
        Err(DecodeError::ViewExceedsBuffer { buffer_view: 1 })
    );
}

#[test]
fn missing_attributes_are_rejected() {
    let (desc, buffers) = simple_asset();
    let mut no_position = desc.clone();
    no_position.meshes[0].primitives[0].position = None;
    assert_eq!(Mesh::from_asset(&no_position, &buffers), Err(DecodeError::MissingPosition));
    let mut no_texcoord = desc.clone();
    no_texcoord.meshes[0].primitives[0].texcoord = None;
    assert_eq!(Mesh::from_asset(&no_texcoord, &buffers), Err(DecodeError::MissingTexcoord));
    let mut no_indices = desc;
    no_indices.meshes[0].primitives[0].indices = None;
    assert_eq!(Mesh::from_asset(&no_indices, &buffers), Err(DecodeError::MissingIndices));
}

#[test]
fn out_of_range_references_are_rejected() {
    let (desc, buffers) = simple_asset();
    let mut bad_accessor = desc.clone();
    bad_accessor.meshes[0].primitives[0].position = Some(9);
    assert_eq!(
        Mesh::from_asset(&bad_accessor, &buffers),
        Err(DecodeError::AccessorOutOfRange { accessor: 9 })
    );
    let mut bad_view = desc.clone();
    bad_view.accessors[0].buffer_view = 7;
    assert_eq!(
        Mesh::from_asset(&bad_view, &buffers),
        Err(DecodeError::BufferViewOutOfRange { buffer_view: 7 })
    );
    let mut bad_buffer = desc;
    bad_buffer.buffer_views[1].buffer = 3;
    assert_eq!(
        Mesh::from_asset(&bad_buffer, &buffers),
        Err(DecodeError::BufferOutOfRange { buffer: 3 })
    );
}

#[test]
fn wrong_component_types_are_rejected() {
    let (desc, buffers) = simple_asset();
    let mut int_positions = desc.clone();
    int_positions.accessors[0].component_type = U16;
    assert_eq!(
        Mesh::from_asset(&int_positions, &buffers),
        Err(DecodeError::UnsupportedComponentType { accessor: 0, component_type: U16 })
    );
    let mut float_indices = desc;
    float_indices.accessors[1].component_type = F32;
    assert_eq!(
        Mesh::from_asset(&float_indices, &buffers),
        Err(DecodeError::UnsupportedComponentType { accessor: 1, component_type: F32 })
    );
}

#[test]
fn elements_exceeding_their_view_are_rejected() {
    let (desc, buffers) = simple_asset();
    let mut too_many_vertices = desc.clone();
    // 4 * 12 = 48 bytes > the 36-byte position view.
    too_many_vertices.accessors[0].count = 4;
    assert_eq!(
        Mesh::from_asset(&too_many_vertices, &buffers),
        Err(DecodeError::ElementsExceedView { accessor: 0 })
    );
    let mut too_many_indices = desc;
    // 4 * 2 = 8 bytes > the 6-byte index view.
    too_many_indices.accessors[1].count = 4;
    assert_eq!(
        Mesh::from_asset(&too_many_indices, &buffers),
        Err(DecodeError::ElementsExceedView { accessor: 1 })
    );
}

#[test]
fn huge_element_count_is_rejected_without_overflow() {
    let (desc, buffers) = simple_asset();
    let mut desc = desc;
    // count * 12 would overflow a usize; the decoder must still reject it.
    desc.accessors[0].count = usize::MAX;
    assert_eq!(
        Mesh::from_asset(&desc, &buffers),
        Err(DecodeError::ElementsExceedView { accessor: 0 })
    );
}

#[test]
fn huge_view_offset_is_rejected_without_overflow() {
    let (desc, buffers) = simple_asset();
    let mut desc = desc;
    // byte_offset + byte_length would overflow a usize.
    desc.buffer_views[1] = view(0, usize::MAX, 5);
    assert_eq!(
        Mesh::from_asset(&desc, &buffers),
        Err(DecodeError::ViewExceedsBuffer { buffer_view: 1 })
    );
}

#[test]
fn empty_asset_decodes_to_empty_mesh() {
    let desc = asset(vec![], vec![], vec![]);
    let mesh = Mesh::from_asset(&desc, &vec![]).unwrap();
    assert!(mesh.verts.is_empty());
    assert!(mesh.indices.is_empty());
}
