//! The texture-quadtree binary format: one PNG-encoded image per quadtree
//! node, reached through the same offset-table convention as the cell
//! format.
//!
//! Layout, all little-endian: a 16-byte header (`magic`, `version`,
//! `depth`, `tile_size`), then `full_size(depth)` 64-bit offsets, then one
//! PNG stream per node at its offset.

use vstd::prelude::*;
use vstd::arithmetic::power2::pow2;
use vstd::bytes::spec_u32_from_le_bytes;

use crate::disk_util::{read_offset_table, read_value, ByteReader};
use crate::error::LoadError;
use crate::quadtree::{
    full_size, lemma_full_size_monotone, lemma_level_extent, lemma_node_index_inverse, node_index,
    spec_full_size, QuadTree, MAX_TREE_DEPTH,
};

verus! {

/// What the PNG decoder computes from a byte stream: the frame's width
/// and height and its raw pixel bytes, or nothing where the stream is not
/// a decodable PNG.  The result depends on the bytes alone.
pub uninterp spec fn png_decoded(bytes: Seq<u8>) -> Option<(u32, u32, Seq<u8>)>;

/// Relies on png's `Decoder` / `Reader::next_frame`: decodes the PNG
/// stream at the start of the given bytes into its raw pixel buffer,
/// deterministically in the bytes.
#[verifier::external_body]
fn decode_png(data: &Vec<u8>, offset: usize) -> (r: Result<(u32, u32, Vec<u8>), LoadError>)
    requires
        offset <= data@.len(),
    ensures
        match r {
            Ok((w, h, px)) => png_decoded(data@.skip(offset as int)) == Some((w, h, px@)),
            Err(e) => {
                &&& e == LoadError::InvalidFormat
                &&& png_decoded(data@.skip(offset as int)) is None
            },
        },
{
    let cursor = std::io::Cursor::new(&data[offset..]);
    let mut reader = png::Decoder::new(cursor).read_info().map_err(
        |_| LoadError::InvalidFormat,
    )?;
    let size = reader.output_buffer_size().ok_or(LoadError::InvalidFormat)?;
    let mut image = vec![0u8; size];
    let info = reader.next_frame(image.as_mut_slice()).map_err(|_| LoadError::InvalidFormat)?;
    Ok((info.width, info.height, image))
}

/// One texture tile: the raw pixel bytes of its decoded image.
#[derive(Clone, Debug)]
pub struct Tile {
    pub image: Vec<u8>,
}

/// The bytes the PNG decoder sees after a seek to `off`: the suffix of
/// the data from there, empty when `off` lies past the end.
pub open spec fn spec_png_input(data: Seq<u8>, off: int) -> Seq<u8> {
    if 0 <= off <= data.len() {
        data.skip(off)
    } else {
        Seq::empty()
    }
}

/// Why decoding the tile at `off` fails, or `None` where it succeeds with
/// the right dimensions.
pub open spec fn spec_tile_error(data: Seq<u8>, off: int, tile_size: u32) -> Option<LoadError> {
    match png_decoded(spec_png_input(data, off)) {
        None => Some(LoadError::InvalidFormat),
        Some((w, h, px)) => if w != tile_size || h != tile_size {
            Some(LoadError::TileSizeMismatch)
        } else {
            None
        },
    }
}

impl Tile {
    /// Decodes the PNG at `offset` and checks its dimensions against the
    /// format's tile size.
    pub fn read_from(reader: &mut ByteReader, tile_size: u32, offset: u64) -> (r: Result<
        Self,
        LoadError,
    >)
        requires
            old(reader).wf(),
        ensures
            final(reader).contents() == old(reader).contents(),
            final(reader).wf(),
            match r {
                Ok(t) => {
                    &&& spec_tile_error(old(reader).contents(), offset as int, tile_size) is None
                    &&& png_decoded(spec_png_input(old(reader).contents(), offset as int))
                        == Some((tile_size, tile_size, t.image@))
                },
                Err(e) => spec_tile_error(old(reader).contents(), offset as int, tile_size)
                    == Some(e),
            },
    {
        reader.seek(offset);
        proof {
            if offset > old(reader).contents().len() {
                assert(old(reader).contents().skip(old(reader).contents().len() as int)
                    =~= Seq::<u8>::empty());
            }
        }
        let pos = reader.position();
        let (w, h, image) = match decode_png(reader.bytes(), pos) {
            Ok(t) => t,
            Err(e) => {
                return Err(e);
            },
        };
        if w != tile_size || h != tile_size {
            return Err(LoadError::TileSizeMismatch);
        }
        Ok(Tile { image })
    }
}

/// The texture format's 16-byte header.
#[derive(Clone, Copy, Debug, PartialEq, Eq, Structural)]
pub struct Header {
    pub magic: u32,
    pub version: u32,
    pub depth: u32,
    pub tile_size: u32,
}

/// The header whose sixteen bytes start the data.
pub open spec fn spec_texture_header(data: Seq<u8>) -> Header {
    Header {
        magic: spec_u32_from_le_bytes(data.subrange(0, 4)),
        version: spec_u32_from_le_bytes(data.subrange(4, 8)),
        depth: spec_u32_from_le_bytes(data.subrange(8, 12)),
        tile_size: spec_u32_from_le_bytes(data.subrange(12, 16)),
    }
}

impl Header {
    /// Decodes the four header fields at the cursor.
    pub fn read_from(reader: &mut ByteReader) -> (r: Result<Self, LoadError>)
        requires
            old(reader).wf(),
            old(reader).spec_pos() == 0,
        ensures
            final(reader).contents() == old(reader).contents(),
            final(reader).wf(),
            match r {
                Ok(h) => {
                    &&& old(reader).contents().len() >= 16
                    &&& h == spec_texture_header(old(reader).contents())
                    &&& final(reader).spec_pos() == 16
                },
                Err(e) => {
                    &&& e == LoadError::TruncatedRead
                    &&& old(reader).contents().len() < 16
                },
            },
    {
        let mut magic: u32 = 0;
        let mut version: u32 = 0;
        let mut depth: u32 = 0;
        let mut tile_size: u32 = 0;

        if let Err(e) = read_value(reader, &mut magic) {
            return Err(e);
        }
        if let Err(e) = read_value(reader, &mut version) {
            return Err(e);
        }
        if let Err(e) = read_value(reader, &mut depth) {
            return Err(e);
        }
        if let Err(e) = read_value(reader, &mut tile_size) {
            return Err(e);
        }

        Ok(Header { magic, version, depth, tile_size })
    }
}

impl QuadTree<Tile> {
    /// Decodes one texture tile per tree node, walking the levels
    /// top-down and each level row-major, and assembles the complete
    /// tree.  On failure it reports the first failing node's error.
    pub fn read_from(
        reader: &mut ByteReader,
        depth: u32,
        tile_size: u32,
        offsets: &Vec<u64>,
    ) -> (r: Result<Self, LoadError>)
        requires
            old(reader).wf(),
            1 <= depth <= MAX_TREE_DEPTH,
            offsets@.len() == spec_full_size(depth as nat),
        ensures
            final(reader).contents() == old(reader).contents(),
            final(reader).wf(),
            match r {
                Ok(tree) => {
                    &&& tree.wf()
                    &&& tree.spec_depth() == depth
                    &&& tree@.len() == spec_full_size(depth as nat)
                    &&& forall|i: int|
                        0 <= i < tree@.len() ==> png_decoded(
                            spec_png_input(old(reader).contents(), #[trigger] offsets@[i] as int),
                        ) == Some((tile_size, tile_size, tree@[i].image@))
                },
                Err(e) => exists|i: int|
                    {
                        &&& 0 <= i < spec_full_size(depth as nat)
                        &&& spec_tile_error(
                            old(reader).contents(),
                            #[trigger] offsets@[i] as int,
                            tile_size,
                        ) == Some(e)
                        &&& forall|j: int|
                            0 <= j < i ==> spec_tile_error(
                                old(reader).contents(),
                                #[trigger] offsets@[j] as int,
                                tile_size,
                            ) is None
                    },
            },
    {
        let ghost data = old(reader).contents();
        let mut tiles: Vec<Tile> = Vec::new();

        let mut level: u32 = 0;
        while level < depth
            invariant
                reader.wf(),
                data == old(reader).contents(),
                reader.contents() == data,
                level <= depth <= MAX_TREE_DEPTH,
                offsets@.len() == spec_full_size(depth as nat),
                tiles@.len() == spec_full_size(level as nat),
                forall|i: int|
                    0 <= i < tiles@.len() ==> {
                        &&& spec_tile_error(data, #[trigger] offsets@[i] as int, tile_size)
                            is None
                        &&& png_decoded(spec_png_input(data, offsets@[i] as int)) == Some(
                            (tile_size, tile_size, tiles@[i].image@),
                        )
                    },
            decreases depth - level,
        {
            proof {
                lemma_full_size_monotone((level + 1) as nat, depth as nat);
                lemma_level_extent(level as nat);
                vstd::arithmetic::power2::lemma2_to64();
                vstd::arithmetic::power2::lemma_pow2_strictly_increases(level as nat, 16);
                vstd::bits::lemma_u32_shl_is_mul(1, level);
            }
            let n: u32 = 1 << level;

            let mut row: u32 = 0;
            while row < n
                invariant
                    reader.wf(),
                    data == old(reader).contents(),
                    reader.contents() == data,
                    level < depth <= MAX_TREE_DEPTH,
                    n == pow2(level as nat),
                    offsets@.len() == spec_full_size(depth as nat),
                    spec_full_size((level + 1) as nat) <= spec_full_size(depth as nat),
                    spec_full_size(level as nat) + pow2(level as nat) * pow2(level as nat)
                        == spec_full_size((level + 1) as nat),
                    row <= n,
                    tiles@.len() == spec_full_size(level as nat) + row * pow2(level as nat),
                    forall|i: int|
                        0 <= i < tiles@.len() ==> {
                            &&& spec_tile_error(data, #[trigger] offsets@[i] as int, tile_size)
                                is None
                            &&& png_decoded(spec_png_input(data, offsets@[i] as int)) == Some(
                                (tile_size, tile_size, tiles@[i].image@),
                            )
                        },
                decreases n - row,
            {
                let mut col: u32 = 0;
                while col < n
                    invariant
                        reader.wf(),
                        data == old(reader).contents(),
                        reader.contents() == data,
                        level < depth <= MAX_TREE_DEPTH,
                        n == pow2(level as nat),
                        offsets@.len() == spec_full_size(depth as nat),
                        spec_full_size((level + 1) as nat) <= spec_full_size(depth as nat),
                        spec_full_size(level as nat) + pow2(level as nat) * pow2(level as nat)
                            == spec_full_size((level + 1) as nat),
                        row < n,
                        col <= n,
                        tiles@.len() == spec_full_size(level as nat) + row * pow2(level as nat)
                            + col,
                        forall|i: int|
                            0 <= i < tiles@.len() ==> {
                                &&& spec_tile_error(
                                    data,
                                    #[trigger] offsets@[i] as int,
                                    tile_size,
                                ) is None
                                &&& png_decoded(spec_png_input(data, offsets@[i] as int)) == Some(
                                    (tile_size, tile_size, tiles@[i].image@),
                                )
                            },
                    decreases n - col,
                {
                    let idx = node_index(level, row, col);
                    proof {
                        lemma_node_index_inverse(level as nat, row as nat, col as nat);
                    }
                    let tile = match Tile::read_from(reader, tile_size, offsets[idx as usize]) {
                        Ok(t) => t,
                        Err(e) => {
                            return Err(e);
                        },
                    };
                    tiles.push(tile);
                    col = col + 1;
                }
                proof {
                    vstd::arithmetic::mul::lemma_mul_is_distributive_add_other_way(
                        pow2(level as nat) as int,
                        row as int,
                        1,
                    );
                }
                row = row + 1;
            }
            level = level + 1;
        }

        Ok(QuadTree::build_complete_tree(tiles, depth))
    }
}

/// A quadtree of texture tiles with the format's depth and tile size.
#[derive(Debug)]
pub struct TexturedQuadTree {
    pub lod: QuadTree<Tile>,
    pub depth: u32,
    pub tile_size: u32,
}

pub const TQT_MAGIC: u32 = 0x00545154;

pub const TQT_VERSION: u32 = 1;

/// The offset table entries of a texture file.
pub open spec fn spec_texture_offsets(data: Seq<u8>, depth: u32) -> Seq<u64> {
    Seq::new(
        spec_full_size(depth as nat),
        |i: int|
            vstd::bytes::spec_u64_from_le_bytes(data.subrange(16 + 8 * i, 16 + 8 * i + 8)),
    )
}

/// Why loading a texture file fails, or `None` where it succeeds: the
/// header checks in order, then the offset table, then the first failing
/// tile.
pub open spec fn spec_texture_error(data: Seq<u8>) -> Option<LoadError> {
    if data.len() < 16 {
        Some(LoadError::TruncatedRead)
    } else {
        let h = spec_texture_header(data);
        if h.magic != TQT_MAGIC {
            Some(LoadError::InvalidFormat)
        } else if h.version != TQT_VERSION {
            Some(LoadError::UnsupportedVersion)
        } else if h.depth < 1 || h.depth > MAX_TREE_DEPTH {
            Some(LoadError::DepthOutOfRange)
        } else if data.len() < 16 + 8 * spec_full_size(h.depth as nat) {
            Some(LoadError::TruncatedRead)
        } else if exists|i: int|
            0 <= i < spec_full_size(h.depth as nat) && spec_tile_error(
                data,
                #[trigger] spec_texture_offsets(data, h.depth)[i] as int,
                h.tile_size,
            ) is Some {
            spec_tile_error(
                data,
                spec_texture_offsets(data, h.depth)[first_failing_tile(data, h)] as int,
                h.tile_size,
            )
        } else {
            None
        }
    }
}

/// The least tile position whose decode fails.
pub open spec fn first_failing_tile(data: Seq<u8>, h: Header) -> int {
    choose|i: int|
        {
            &&& 0 <= i < spec_full_size(h.depth as nat)
            &&& spec_tile_error(data, #[trigger] spec_texture_offsets(data, h.depth)[i] as int, h.tile_size) is Some
            &&& forall|j: int|
                0 <= j < i ==> spec_tile_error(
                    data,
                    #[trigger] spec_texture_offsets(data, h.depth)[j] as int,
                    h.tile_size,
                ) is None
        }
}

/// The least failing tile position is unique, so it is the one any
/// witness with the same minimality pins down.
proof fn lemma_first_failure_unique(data: Seq<u8>, h: Header, w: int)
    requires
        0 <= w < spec_full_size(h.depth as nat),
        spec_tile_error(data, spec_texture_offsets(data, h.depth)[w] as int, h.tile_size)
            is Some,
        forall|j: int|
            0 <= j < w ==> spec_tile_error(
                data,
                #[trigger] spec_texture_offsets(data, h.depth)[j] as int,
                h.tile_size,
            ) is None,
    ensures
        first_failing_tile(data, h) == w,
{
    let f = first_failing_tile(data, h);
    assert({
        &&& 0 <= f < spec_full_size(h.depth as nat)
        &&& spec_tile_error(data, spec_texture_offsets(data, h.depth)[f] as int, h.tile_size)
            is Some
        &&& forall|j: int|
            0 <= j < f ==> spec_tile_error(
                data,
                #[trigger] spec_texture_offsets(data, h.depth)[j] as int,
                h.tile_size,
            ) is None
    });
}

impl TexturedQuadTree {
    /// Decodes a whole texture file: header, offset table, then every
    /// tile, in the canonical node order.
    #[verifier::rlimit(50)]
    pub fn new(data: Vec<u8>) -> (r: Result<Self, LoadError>)
        ensures
            match r {
                Ok(t) => {
                    &&& spec_texture_error(data@) is None
                    &&& data@.len() >= 16
                    &&& t.depth == spec_texture_header(data@).depth
                    &&& t.tile_size == spec_texture_header(data@).tile_size
                    &&& t.lod.wf()
                    &&& t.lod.spec_depth() == t.depth
                    &&& forall|i: int|
                        0 <= i < t.lod@.len() ==> png_decoded(
                            spec_png_input(
                                data@,
                                #[trigger] spec_texture_offsets(data@, t.depth)[i] as int,
                            ),
                        ) == Some((t.tile_size, t.tile_size, t.lod@[i].image@))
                },
                Err(e) => spec_texture_error(data@) == Some(e),
            },
    {
        let ghost gdata = data@;
        let mut reader = ByteReader::new(data);

        let header = match Header::read_from(&mut reader) {
            Ok(h) => h,
            Err(e) => {
                return Err(e);
            },
        };

        if header.magic != TQT_MAGIC {
            return Err(LoadError::InvalidFormat);
        }
        if header.version != TQT_VERSION {
            return Err(LoadError::UnsupportedVersion);
        }
        if header.depth < 1 || header.depth > MAX_TREE_DEPTH {
            return Err(LoadError::DepthOutOfRange);
        }

        let n_tiles = full_size(header.depth);
        let offsets = match read_offset_table(&mut reader, n_tiles) {
            Ok(o) => o,
            Err(e) => {
                return Err(e);
            },
        };
        proof {
            assert(offsets@ =~= spec_texture_offsets(gdata, header.depth));
        }

        let lod = match QuadTree::<Tile>::read_from(
            &mut reader,
            header.depth,
            header.tile_size,
            &offsets,
        ) {
            Ok(t) => t,
            Err(e) => {
                proof {
                    let w = choose|i: int|
                        {
                            &&& 0 <= i < spec_full_size(header.depth as nat)
                            &&& spec_tile_error(
                                gdata,
                                #[trigger] offsets@[i] as int,
                                header.tile_size,
                            ) == Some(e)
                            &&& forall|j: int|
                                0 <= j < i ==> spec_tile_error(
                                    gdata,
                                    #[trigger] offsets@[j] as int,
                                    header.tile_size,
                                ) is None
                        };
                    lemma_first_failure_unique(gdata, spec_texture_header(gdata), w);
                }
                return Err(e);
            },
        };

        Ok(TexturedQuadTree { lod, depth: header.depth, tile_size: header.tile_size })
    }
}

} // verus!
