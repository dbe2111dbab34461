use terrain_lod::error::LoadError;
use terrain_lod::texture_quadtree::TexturedQuadTree;

fn png_bytes(width: u32, height: u32, pixels: &[u8]) -> Vec<u8> {
    let mut out = Vec::new();
    let mut enc = png::Encoder::new(&mut out, width, height);
    enc.set_color(png::ColorType::Rgb);
    enc.set_depth(png::BitDepth::Eight);
    let mut writer = enc.write_header().unwrap();
    writer.write_image_data(pixels).unwrap();
    writer.finish().unwrap();
    out
}

/// A texture file whose tiles are laid out back to back after the offset
/// table.
fn tqt_bytes(magic: u32, version: u32, depth: u32, tile_size: u32, tiles: &[Vec<u8>]) -> Vec<u8> {
    let mut b = Vec::new();
    b.extend_from_slice(&magic.to_le_bytes());
    b.extend_from_slice(&version.to_le_bytes());
    b.extend_from_slice(&depth.to_le_bytes());
    b.extend_from_slice(&tile_size.to_le_bytes());
    let mut offset = 16u64 + 8 * tiles.len() as u64;
    for t in tiles {
        b.extend_from_slice(&offset.to_le_bytes());
        offset += t.len() as u64;
    }
    for t in tiles {
        b.extend_from_slice(t);
    }
    b
}

const MAGIC: u32 = 0x00545154;

#[test]
fn texture_file_decodes_to_raw_pixels() {
    let pixels: Vec<u8> = (0..12).collect();
    let tiles = vec![png_bytes(2, 2, &pixels)];
    let data = tqt_bytes(MAGIC, 1, 1, 2, &tiles);

    let tqt = TexturedQuadTree::new(data).unwrap();
    assert_eq!(tqt.depth, 1);
    assert_eq!(tqt.tile_size, 2);
    assert_eq!(tqt.lod.depth(), 1);
    let root = tqt.lod.items_at_level(0);
    assert_eq!(root.len(), 1);
    assert_eq!(root[0].image, pixels);
}

#[test]
fn texture_file_depth_two() {
    let mut tiles = Vec::new();
    for k in 0..5u8 {
        let pixels = vec![k; 12];
        tiles.push(png_bytes(2, 2, &pixels));
    }
    let data = tqt_bytes(MAGIC, 1, 2, 2, &tiles);
    let tqt = TexturedQuadTree::new(data).unwrap();
    let level1 = tqt.lod.items_at_level(1);
    assert_eq!(level1.len(), 4);
    for (k, t) in level1.iter().enumerate() {
        assert_eq!(t.image, vec![(k + 1) as u8; 12]);
    }
}

#[test]
fn texture_tiles_can_be_interlaced_in_place() {
    let pixels: Vec<u8> = vec![10, 20, 30, 40, 50, 60, 70, 80, 90, 100, 110, 120];
    let tiles = vec![png_bytes(2, 2, &pixels)];
    let data = tqt_bytes(MAGIC, 1, 1, 2, &tiles);
    let mut tqt = TexturedQuadTree::new(data).unwrap();

    for tile in tqt.lod.mut_view().iter_mut() {
        terrain_lod::disk_util::interlace_alpha(&mut tile.image);
    }

    let root = tqt.lod.items_at_level(0);
    assert_eq!(
        root[0].image,
        vec![10, 20, 30, 255, 40, 50, 60, 255, 70, 80, 90, 255, 100, 110, 120, 255]
    );
}

#[test]
fn texture_wrong_magic_is_invalid_format() {
    let tiles = vec![png_bytes(2, 2, &[0; 12])];
    let data = tqt_bytes(0x11111111, 1, 1, 2, &tiles);
    match TexturedQuadTree::new(data) {
        Err(e) => assert_eq!(e, LoadError::InvalidFormat),
        Ok(_) => panic!("accepted a wrong magic number"),
    }
}

#[test]
fn texture_wrong_version_is_unsupported() {
    let tiles = vec![png_bytes(2, 2, &[0; 12])];
    let data = tqt_bytes(MAGIC, 2, 1, 2, &tiles);
    match TexturedQuadTree::new(data) {
        Err(e) => assert_eq!(e, LoadError::UnsupportedVersion),
        Ok(_) => panic!("accepted a wrong version"),
    }
}

#[test]
fn texture_tile_size_mismatch() {
    // The stored tile size says 3, the embedded image is 2 by 2.
    let tiles = vec![png_bytes(2, 2, &[0; 12])];
    let data = tqt_bytes(MAGIC, 1, 1, 3, &tiles);
    match TexturedQuadTree::new(data) {
        Err(e) => assert_eq!(e, LoadError::TileSizeMismatch),
        Ok(_) => panic!("accepted mismatched tile dimensions"),
    }
}

#[test]
fn texture_garbage_payload_is_invalid_format() {
    let tiles = vec![vec![0u8; 32]];
    let data = tqt_bytes(MAGIC, 1, 1, 2, &tiles);
    match TexturedQuadTree::new(data) {
        Err(e) => assert_eq!(e, LoadError::InvalidFormat),
        Ok(_) => panic!("accepted a payload that is not a PNG"),
    }
}

#[test]
fn texture_truncated_header() {
    let data = vec![0u8; 10];
    match TexturedQuadTree::new(data) {
        Err(e) => assert_eq!(e, LoadError::TruncatedRead),
        Ok(_) => panic!("accepted a truncated header"),
    }
}
