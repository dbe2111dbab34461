use terrain_lod::cell::{Cell, Chunk, ChunkHeader, HFVertex};
use terrain_lod::disk_util::{interlace_alpha, read_value, ByteReader};
use terrain_lod::error::LoadError;
use terrain_lod::map::MapParams;

fn chunk_bytes(
    max_error: f32,
    min_y: i16,
    max_y: i16,
    verts: &[(i16, i16, i16, i16)],
    indices: &[u16],
) -> Vec<u8> {
    let mut b = Vec::new();
    b.extend_from_slice(&max_error.to_le_bytes());
    b.extend_from_slice(&(verts.len() as u32).to_le_bytes());
    b.extend_from_slice(&(indices.len() as u32).to_le_bytes());
    b.extend_from_slice(&min_y.to_le_bytes());
    b.extend_from_slice(&max_y.to_le_bytes());
    for &(x, y, z, m) in verts {
        b.extend_from_slice(&x.to_le_bytes());
        b.extend_from_slice(&y.to_le_bytes());
        b.extend_from_slice(&z.to_le_bytes());
        b.extend_from_slice(&m.to_le_bytes());
    }
    for &i in indices {
        b.extend_from_slice(&i.to_le_bytes());
    }
    b
}

/// A cell file of the given depth whose chunks are laid out back to back
/// after the offset table.
fn cell_bytes(magic: u32, compressed: u32, size: u32, depth: u32, chunks: &[Vec<u8>]) -> Vec<u8> {
    let mut b = Vec::new();
    b.extend_from_slice(&magic.to_le_bytes());
    b.extend_from_slice(&compressed.to_le_bytes());
    b.extend_from_slice(&size.to_le_bytes());
    b.extend_from_slice(&depth.to_le_bytes());
    let mut offset = 16u64 + 8 * chunks.len() as u64;
    for c in chunks {
        b.extend_from_slice(&offset.to_le_bytes());
        offset += c.len() as u64;
    }
    for c in chunks {
        b.extend_from_slice(c);
    }
    b
}

const MAGIC: u32 = 0x63656C6C;

#[test]
fn read_value_decodes_little_endian() {
    let mut r = ByteReader::new(vec![0x34, 0x12, 0xFF, 0xFF, 0x78, 0x56, 0x34, 0x12]);
    let mut a: u16 = 0;
    assert!(read_value(&mut r, &mut a).is_ok());
    assert_eq!(a, 0x1234);
    let mut b: i16 = 0;
    assert!(read_value(&mut r, &mut b).is_ok());
    assert_eq!(b, -1);
    let mut c: u32 = 0;
    assert!(read_value(&mut r, &mut c).is_ok());
    assert_eq!(c, 0x12345678);
    // Only eight bytes: a further read fails and moves nothing.
    let mut d: u16 = 7;
    assert_eq!(read_value(&mut r, &mut d), Err(LoadError::TruncatedRead));
    assert_eq!(d, 7);
}

#[test]
fn read_value_u64_and_floats_round_trip() {
    let x = 0x0123_4567_89AB_CDEFu64;
    let mut r = ByteReader::new(x.to_le_bytes().to_vec());
    let mut y: u64 = 0;
    assert!(read_value(&mut r, &mut y).is_ok());
    assert_eq!(y, x);

    // A float's bits survive the byte round trip exactly.
    let f = 2.5f32;
    let mut r = ByteReader::new(f.to_le_bytes().to_vec());
    let mut bits: u32 = 0;
    assert!(read_value(&mut r, &mut bits).is_ok());
    assert_eq!(bits, f.to_bits());
    assert_eq!(f32::from_bits(bits), 2.5);
}

#[test]
fn chunk_round_trip() {
    let verts = [(1i16, -2i16, 3i16, -4i16), (100, 200, -300, 0)];
    let indices = [0u16, 1, 0];
    let bytes = chunk_bytes(2.5, -5, 7, &verts, &indices);
    let mut r = ByteReader::new(bytes);
    let c: Chunk = Chunk::read_from(&mut r, 0).unwrap();
    assert_eq!(f32::from_bits(c.max_error_bits), 2.5);
    assert_eq!(c.min_y, -5);
    assert_eq!(c.max_y, 7);
    assert_eq!(c.vertices.len(), 2);
    assert_eq!(
        c.vertices[0],
        HFVertex { x: 1, y: -2, z: 3, morph_delta: -4 }
    );
    assert_eq!(
        c.vertices[1],
        HFVertex { x: 100, y: 200, z: -300, morph_delta: 0 }
    );
    assert_eq!(c.indices, vec![0, 1, 0]);
}

#[test]
fn chunk_header_reads_its_five_fields() {
    let bytes = chunk_bytes(1.0, -1, 2, &[], &[]);
    let mut r = ByteReader::new(bytes);
    let h: ChunkHeader = ChunkHeader::read_from(&mut r).unwrap();
    assert_eq!(f32::from_bits(h.max_error_bits), 1.0);
    assert_eq!(h.n_verts, 0);
    assert_eq!(h.n_indices, 0);
    assert_eq!(h.min_y, -1);
    assert_eq!(h.max_y, 2);
}

#[test]
fn chunk_truncated_fails() {
    let bytes = chunk_bytes(1.0, 0, 0, &[(1, 2, 3, 4)], &[9]);
    let cut = bytes[..bytes.len() - 1].to_vec();
    let mut r = ByteReader::new(cut);
    match Chunk::read_from(&mut r, 0) {
        Err(e) => assert_eq!(e, LoadError::TruncatedRead),
        Ok(_) => panic!("accepted a truncated chunk"),
    }
}

#[test]
fn cell_decodes_depth_two() {
    let chunks: Vec<Vec<u8>> = (0..5)
        .map(|i| chunk_bytes(i as f32, -(i as i16), i as i16, &[], &[]))
        .collect();
    let data = cell_bytes(MAGIC, 0, 64, 2, &chunks);
    let cell = Cell::new(data, (0, 0), None, None, 64).unwrap();
    assert_eq!(cell.depth, 2);
    assert!(!cell.is_in_map());

    let root = cell.lod.items_at_level(0);
    assert_eq!(root.len(), 1);
    assert_eq!(root[0].level, 0);
    assert_eq!(root[0].position, (0, 0));
    assert_eq!(f32::from_bits(root[0].chunk.max_error_bits), 0.0);

    let level1 = cell.lod.items_at_level(1);
    assert_eq!(level1.len(), 4);
    let expected_pos = [(0u32, 0u32), (0, 1), (1, 0), (1, 1)];
    for (k, t) in level1.iter().enumerate() {
        assert_eq!(t.level, 1);
        assert_eq!(t.position, expected_pos[k]);
        assert_eq!(f32::from_bits(t.chunk.max_error_bits), (k + 1) as f32);
        assert!(t.bbox.is_none());
        assert!(!t.is_in_map());
    }
}

#[test]
fn cell_wrong_magic_is_invalid_format() {
    let chunks = vec![chunk_bytes(0.0, 0, 0, &[], &[])];
    let data = cell_bytes(0xDEADBEEF, 0, 64, 1, &chunks);
    match Cell::new(data, (0, 0), None, None, 64) {
        Err(e) => assert_eq!(e, LoadError::InvalidFormat),
        Ok(_) => panic!("accepted a wrong magic number"),
    }
}

#[test]
fn cell_compressed_is_unsupported() {
    let chunks = vec![chunk_bytes(0.0, 0, 0, &[], &[])];
    let data = cell_bytes(MAGIC, 1, 64, 1, &chunks);
    match Cell::new(data, (0, 0), None, None, 64) {
        Err(e) => assert_eq!(e, LoadError::UnsupportedFeature),
        Ok(_) => panic!("accepted a compressed cell"),
    }
}

#[test]
fn cell_size_mismatch() {
    let chunks = vec![chunk_bytes(0.0, 0, 0, &[], &[])];
    let data = cell_bytes(MAGIC, 0, 32, 1, &chunks);
    match Cell::new(data, (0, 0), None, None, 64) {
        Err(e) => assert_eq!(e, LoadError::SizeMismatch),
        Ok(_) => panic!("accepted a mismatched size"),
    }
}

#[test]
fn cell_depth_out_of_range() {
    let chunks = vec![chunk_bytes(0.0, 0, 0, &[], &[])];
    for bad_depth in [0u32, 10, 100] {
        let data = cell_bytes(MAGIC, 0, 64, bad_depth, &chunks);
        match Cell::new(data, (0, 0), None, None, 64) {
            Err(e) => assert_eq!(e, LoadError::DepthOutOfRange),
            Ok(_) => panic!("accepted depth {bad_depth}"),
        }
    }
}

#[test]
fn cell_truncated_offsets() {
    let data = cell_bytes(MAGIC, 0, 64, 1, &[]);
    match Cell::new(data, (0, 0), None, None, 64) {
        Err(e) => assert_eq!(e, LoadError::TruncatedRead),
        Ok(_) => panic!("accepted a truncated file"),
    }
}

#[test]
fn cell_placement_computes_world_boxes() {
    let chunks = vec![chunk_bytes(0.0, -2, 5, &[], &[])];
    let data = cell_bytes(MAGIC, 0, 4, 1, &chunks);
    let mut cell = Cell::new(data, (1, 2), None, None, 4).unwrap();

    let params = MapParams { h_scale: 2, v_scale: 3, base_elevation: 100, cell_width: 4 };
    assert_eq!(params.world_cell_width(), 8);

    cell.put_in_map(&params);
    assert!(cell.is_in_map());
    assert_eq!(cell.worldly_width, Some(8));
    // Corner: x = width * col, z = width * row.
    let corner = cell.corner_world_position();
    assert_eq!((corner.x, corner.y, corner.z), (16, 0, 8));

    let root = cell.lod.items_at_level(0);
    assert!(root[0].is_in_map());
    let bbox = root[0].bbox.unwrap();
    // nw corner plus elevation range, se corner one LOD-scaled tile away.
    assert_eq!((bbox.min.x, bbox.min.y, bbox.min.z), (16, 94, 8));
    assert_eq!((bbox.max.x, bbox.max.y, bbox.max.z), (24, 115, 16));
    assert!(bbox.min.x <= bbox.max.x && bbox.min.y <= bbox.max.y && bbox.min.z <= bbox.max.z);
}

#[test]
fn errors_describe_themselves() {
    assert_eq!(LoadError::InvalidFormat.describe(), "invalid magic number");
    assert_eq!(LoadError::TruncatedRead.describe(), "unexpected end of data");
    assert_eq!(
        LoadError::UnsupportedFeature.describe(),
        "compressed cells are not supported"
    );
}

#[test]
fn interlace_alpha_inserts_opaque_channel() {
    let mut image = vec![1u8, 2, 3, 4, 5, 6];
    interlace_alpha(&mut image);
    assert_eq!(image, vec![1, 2, 3, 255, 4, 5, 6, 255]);

    // Trailing bytes of a partial pixel are dropped.
    let mut image = vec![1u8, 2, 3, 4];
    interlace_alpha(&mut image);
    assert_eq!(image, vec![1, 2, 3, 255]);

    let mut empty: Vec<u8> = Vec::new();
    interlace_alpha(&mut empty);
    assert!(empty.is_empty());
}
