//! The cell binary format: one heightfield quadtree per cell, decoded from
//! the file's bytes through the offset table in the canonical node order.
//!
//! Layout, all little-endian: a 16-byte header (`magic`, `compressed`,
//! `size`, `depth`), then `full_size(depth)` 64-bit offsets, one per tree
//! node, then one chunk record per node at its offset.

use vstd::prelude::*;
use vstd::arithmetic::power2::pow2;
use vstd::bytes::{spec_u16_from_le_bytes, spec_u32_from_le_bytes, spec_u64_from_le_bytes};

use crate::aabb::{Vec3, AABB};
use crate::disk_util::{read_offset_table, read_value, spec_i16_from_le_bytes, ByteReader};
use crate::error::LoadError;
use crate::map::{params_in_range, MapParams, CELL_GRID_LIMIT};
use crate::quadtree::{
    col_of, full_size, lemma_full_size_monotone, lemma_level_extent, lemma_node_index_inverse,
    level_of, node_index, row_of, spec_full_size, QuadTree, MAX_TREE_DEPTH,
};
use crate::texture_quadtree::TexturedQuadTree;

verus! {

/// One heightfield vertex as stored on disk: grid position and elevation
/// in signed 16-bit units (a renderer widens them to floats losslessly),
/// and the morphing delta toward the coarser level.
#[derive(Clone, Copy, Debug, PartialEq, Eq, Structural)]
pub struct HFVertex {
    pub x: i16,
    pub y: i16,
    pub z: i16,
    pub morph_delta: i16,
}

/// The vertex whose eight bytes start at `pos`.
pub open spec fn spec_vertex_at(data: Seq<u8>, pos: int) -> HFVertex {
    HFVertex {
        x: spec_i16_from_le_bytes(data.subrange(pos, pos + 2)),
        y: spec_i16_from_le_bytes(data.subrange(pos + 2, pos + 4)),
        z: spec_i16_from_le_bytes(data.subrange(pos + 4, pos + 6)),
        morph_delta: spec_i16_from_le_bytes(data.subrange(pos + 6, pos + 8)),
    }
}

impl HFVertex {
    /// Decodes the four 16-bit fields of one vertex at the cursor.
    pub fn read_from(reader: &mut ByteReader) -> (r: Result<Self, LoadError>)
        requires
            old(reader).wf(),
        ensures
            final(reader).contents() == old(reader).contents(),
            final(reader).wf(),
            match r {
                Ok(v) => {
                    &&& old(reader).spec_pos() + 8 <= old(reader).contents().len()
                    &&& v == spec_vertex_at(old(reader).contents(), old(reader).spec_pos() as int)
                    &&& final(reader).spec_pos() == old(reader).spec_pos() + 8
                },
                Err(e) => {
                    &&& e == LoadError::TruncatedRead
                    &&& old(reader).contents().len() < old(reader).spec_pos() + 8
                },
            },
    {
        let mut x: i16 = 0;
        let mut y: i16 = 0;
        let mut z: i16 = 0;
        let mut morph_delta: i16 = 0;

        if let Err(e) = read_value(reader, &mut x) {
            return Err(e);
        }
        if let Err(e) = read_value(reader, &mut y) {
            return Err(e);
        }
        if let Err(e) = read_value(reader, &mut z) {
            return Err(e);
        }
        if let Err(e) = read_value(reader, &mut morph_delta) {
            return Err(e);
        }

        Ok(HFVertex { x, y, z, morph_delta })
    }
}

/// The fixed 16-byte prefix of a chunk record.  The screen-space error
/// bound is kept as the raw bits of its 32-bit float: the decoders never
/// do float arithmetic, and the bits convert losslessly outside.
#[derive(Clone, Copy, Debug, PartialEq, Eq, Structural)]
pub struct ChunkHeader {
    pub max_error_bits: u32,
    pub n_verts: u32,
    pub n_indices: u32,
    pub min_y: i16,
    pub max_y: i16,
}

/// The chunk header whose sixteen bytes start at `pos`.
pub open spec fn spec_chunk_header_at(data: Seq<u8>, pos: int) -> ChunkHeader {
    ChunkHeader {
        max_error_bits: spec_u32_from_le_bytes(data.subrange(pos, pos + 4)),
        n_verts: spec_u32_from_le_bytes(data.subrange(pos + 4, pos + 8)),
        n_indices: spec_u32_from_le_bytes(data.subrange(pos + 8, pos + 12)),
        min_y: spec_i16_from_le_bytes(data.subrange(pos + 12, pos + 14)),
        max_y: spec_i16_from_le_bytes(data.subrange(pos + 14, pos + 16)),
    }
}

impl ChunkHeader {
    /// Decodes the five header fields at the cursor.
    pub fn read_from(reader: &mut ByteReader) -> (r: Result<Self, LoadError>)
        requires
            old(reader).wf(),
        ensures
            final(reader).contents() == old(reader).contents(),
            final(reader).wf(),
            match r {
                Ok(h) => {
                    &&& old(reader).spec_pos() + 16 <= old(reader).contents().len()
                    &&& h == spec_chunk_header_at(
                        old(reader).contents(),
                        old(reader).spec_pos() as int,
                    )
                    &&& final(reader).spec_pos() == old(reader).spec_pos() + 16
                },
                Err(e) => {
                    &&& e == LoadError::TruncatedRead
                    &&& old(reader).contents().len() < old(reader).spec_pos() + 16
                },
            },
    {
        let mut max_error_bits: u32 = 0;
        let mut n_verts: u32 = 0;
        let mut n_indices: u32 = 0;
        let mut min_y: i16 = 0;
        let mut max_y: i16 = 0;

        if let Err(e) = read_value(reader, &mut max_error_bits) {
            return Err(e);
        }
        if let Err(e) = read_value(reader, &mut n_verts) {
            return Err(e);
        }
        if let Err(e) = read_value(reader, &mut n_indices) {
            return Err(e);
        }
        if let Err(e) = read_value(reader, &mut min_y) {
            return Err(e);
        }
        if let Err(e) = read_value(reader, &mut max_y) {
            return Err(e);
        }

        Ok(ChunkHeader { max_error_bits, n_verts, n_indices, min_y, max_y })
    }
}

/// One LOD tile's heightfield mesh: the header fields, its vertices and
/// its triangle-strip indices.
#[derive(Clone, Debug)]
pub struct Chunk {
    pub max_error_bits: u32,
    pub min_y: i16,
    pub max_y: i16,
    pub vertices: Vec<HFVertex>,
    pub indices: Vec<u16>,
}

/// The mathematical content of a chunk.
#[verifier::ext_equal]
pub ghost struct ChunkModel {
    pub max_error_bits: u32,
    pub min_y: i16,
    pub max_y: i16,
    pub vertices: Seq<HFVertex>,
    pub indices: Seq<u16>,
}

impl View for Chunk {
    type V = ChunkModel;

    open spec fn view(&self) -> ChunkModel {
        ChunkModel {
            max_error_bits: self.max_error_bits,
            min_y: self.min_y,
            max_y: self.max_y,
            vertices: self.vertices@,
            indices: self.indices@,
        }
    }
}

/// Bytes a chunk record with this header occupies.
pub open spec fn spec_chunk_size(h: ChunkHeader) -> int {
    16 + 8 * h.n_verts + 2 * h.n_indices
}

/// The chunk record starting at `off`, or `None` where the data ends
/// before the record does.
pub open spec fn spec_chunk_at(data: Seq<u8>, off: int) -> Option<ChunkModel> {
    if off < 0 || off + 16 > data.len() {
        None
    } else {
        let h = spec_chunk_header_at(data, off);
        if off + spec_chunk_size(h) > data.len() {
            None
        } else {
            Some(ChunkModel {
                max_error_bits: h.max_error_bits,
                min_y: h.min_y,
                max_y: h.max_y,
                vertices: Seq::new(
                    h.n_verts as nat,
                    |i: int| spec_vertex_at(data, off + 16 + 8 * i),
                ),
                indices: Seq::new(
                    h.n_indices as nat,
                    |i: int|
                        spec_u16_from_le_bytes(
                            data.subrange(
                                off + 16 + 8 * h.n_verts + 2 * i,
                                off + 16 + 8 * h.n_verts + 2 * i + 2,
                            ),
                        ),
                ),
            })
        }
    }
}

impl Chunk {
    /// Decodes the chunk record at `offset`: seeks there, reads the
    /// header, then its vertices and indices.  Fails with `TruncatedRead`
    /// exactly where the data ends before the record does.
    pub fn read_from(reader: &mut ByteReader, offset: u64) -> (r: Result<Self, LoadError>)
        requires
            old(reader).wf(),
        ensures
            final(reader).contents() == old(reader).contents(),
            final(reader).wf(),
            match r {
                Ok(c) => spec_chunk_at(old(reader).contents(), offset as int) == Some(c@),
                Err(e) => {
                    &&& e == LoadError::TruncatedRead
                    &&& spec_chunk_at(old(reader).contents(), offset as int) is None
                },
            },
    {
        let ghost data = old(reader).contents();
        let ghost off = offset as int;
        reader.seek(offset);

        let header = match ChunkHeader::read_from(reader) {
            Ok(h) => h,
            Err(e) => {
                return Err(e);
            },
        };
        let ghost h = spec_chunk_header_at(data, off);

        let mut vertices: Vec<HFVertex> = Vec::new();
        let mut i: u32 = 0;
        while i < header.n_verts
            invariant
                reader.wf(),
                data == old(reader).contents(),
                off == offset as int,
                reader.contents() == data,
                header == h,
                i <= h.n_verts,
                h == spec_chunk_header_at(data, off),
                off + 16 <= data.len(),
                reader.spec_pos() == off + 16 + 8 * i,
                vertices@.len() == i,
                forall|j: int|
                    0 <= j < i ==> vertices@[j] == spec_vertex_at(data, off + 16 + 8 * j),
            decreases h.n_verts - i,
        {
            let v = match HFVertex::read_from(reader) {
                Ok(v) => v,
                Err(e) => {
                    proof {
                        assert(data.len() < off + 16 + 8 * i + 8);
                        assert(8 * i + 8 <= 8 * h.n_verts);
                        assert(off + spec_chunk_size(h) > data.len());
                    }
                    return Err(e);
                },
            };
            vertices.push(v);
            i = i + 1;
        }

        let mut indices: Vec<u16> = Vec::new();
        let mut k: u32 = 0;
        let ghost idx_base = off + 16 + 8 * h.n_verts;
        while k < header.n_indices
            invariant
                reader.wf(),
                data == old(reader).contents(),
                off == offset as int,
                reader.contents() == data,
                header == h,
                k <= h.n_indices,
                h == spec_chunk_header_at(data, off),
                idx_base == off + 16 + 8 * h.n_verts,
                off + 16 <= data.len(),
                reader.spec_pos() == idx_base + 2 * k,
                indices@.len() == k,
                forall|j: int|
                    0 <= j < k ==> indices@[j] == spec_u16_from_le_bytes(
                        data.subrange(idx_base + 2 * j, idx_base + 2 * j + 2),
                    ),
            decreases h.n_indices - k,
        {
            let mut x: u16 = 0;
            if let Err(e) = read_value(reader, &mut x) {
                proof {
                    assert(data.len() < idx_base + 2 * k + 2);
                    assert(2 * k + 2 <= 2 * h.n_indices);
                    assert(off + spec_chunk_size(h) > data.len());
                }
                return Err(e);
            }
            indices.push(x);
            k = k + 1;
        }

        let c = Chunk {
            max_error_bits: header.max_error_bits,
            min_y: header.min_y,
            max_y: header.max_y,
            vertices,
            indices,
        };
        proof {
            assert(off + spec_chunk_size(h) <= data.len());
            let m = spec_chunk_at(data, off).unwrap();
            assert(c@.vertices =~= m.vertices);
            assert(c@.indices =~= m.indices);
            assert(c@ =~= m);
        }
        Ok(c)
    }
}

/// Bound on the world coordinates of a cell's corner.
pub const CELL_CORNER_LIMIT: i64 = 0x800_0000_0000;

/// One quadtree node's payload: the chunk, the node's grid position and
/// level, and — once the owning cell is placed into the map — the tile's
/// world-space bounding box.
#[derive(Debug)]
pub struct Tile {
    pub chunk: Chunk,
    pub position: (u32, u32),
    pub level: u32,
    /// Set when put in map.
    pub bbox: Option<AABB>,
}

/// The world-space box of a tile: its north-west corner is the cell's
/// corner displaced by the tile's grid position and the chunk's lowest
/// elevation; its south-east corner adds the tile's LOD-scaled width and
/// uses the highest elevation.
pub open spec fn spec_tile_bbox(
    p: MapParams,
    cell_corner: Vec3,
    position: (u32, u32),
    level: u32,
    min_y: i16,
    max_y: i16,
) -> AABB {
    let nwx = cell_corner.x + p.h_scale * position.1;
    let nwz = cell_corner.z + p.h_scale * position.0;
    let w = p.h_scale * (p.cell_width >> level);
    AABB {
        min: Vec3 {
            x: nwx as i64,
            y: (p.base_elevation + p.v_scale * min_y) as i64,
            z: nwz as i64,
        },
        max: Vec3 {
            x: (nwx + w) as i64,
            y: (p.base_elevation + p.v_scale * max_y) as i64,
            z: (nwz + w) as i64,
        },
    }
}

impl Tile {
    /// Whether the tile has been placed into the map.
    pub fn is_in_map(&self) -> (r: bool)
        ensures
            r == self.bbox is Some,
    {
        match self.bbox {
            Some(_) => true,
            None => false,
        }
    }

    /// Computes the tile's world-space box from the owning cell's corner
    /// and the map's placement parameters.
    pub fn put_in_map_in_cell(&mut self, cell_world_pos: Vec3, params: &MapParams)
        requires
            params_in_range(*params),
            crate::geometry::vec_in_range(cell_world_pos, CELL_CORNER_LIMIT as int),
            old(self).level <= MAX_TREE_DEPTH,
            old(self).position.0 < pow2(old(self).level as nat),
            old(self).position.1 < pow2(old(self).level as nat),
        ensures
            final(self).chunk == old(self).chunk,
            final(self).position == old(self).position,
            final(self).level == old(self).level,
            final(self).bbox == Some(
                spec_tile_bbox(
                    *params,
                    cell_world_pos,
                    old(self).position,
                    old(self).level,
                    old(self).chunk.min_y,
                    old(self).chunk.max_y,
                ),
            ),
            crate::aabb::in_coord_range(final(self).bbox.unwrap().min),
            crate::aabb::in_coord_range(final(self).bbox.unwrap().max),
            old(self).chunk.min_y <= old(self).chunk.max_y ==> final(self).bbox.unwrap().wf(),
    {
        proof {
            vstd::arithmetic::power2::lemma2_to64();
            vstd::arithmetic::power2::lemma_pow2_strictly_increases(
                self.level as nat,
                16,
            );
            crate::geometry::lemma_abs_mul_bound(
                params.h_scale as int,
                self.position.0 as int,
                crate::map::SCALE_LIMIT as int,
                0x10000,
            );
            crate::geometry::lemma_abs_mul_bound(
                params.h_scale as int,
                self.position.1 as int,
                crate::map::SCALE_LIMIT as int,
                0x10000,
            );
            crate::geometry::lemma_abs_mul_bound(
                params.v_scale as int,
                self.chunk.min_y as int,
                crate::map::SCALE_LIMIT as int,
                0x8000,
            );
            crate::geometry::lemma_abs_mul_bound(
                params.v_scale as int,
                self.chunk.max_y as int,
                crate::map::SCALE_LIMIT as int,
                0x8000,
            );
            let cw = params.cell_width;
            let lv = self.level;
            assert(cw >> lv <= cw) by (bit_vector);
            assert(params.cell_width >> self.level == cw >> lv);
            vstd::arithmetic::mul::lemma_mul_nonnegative(
                params.h_scale as int,
                (params.cell_width >> self.level) as int,
            );
            if self.chunk.min_y <= self.chunk.max_y {
                vstd::arithmetic::mul::lemma_mul_inequality(
                    self.chunk.min_y as int,
                    self.chunk.max_y as int,
                    params.v_scale as int,
                );
            }
            crate::geometry::lemma_abs_mul_bound(
                params.h_scale as int,
                (params.cell_width >> self.level) as int,
                crate::map::SCALE_LIMIT as int,
                crate::map::CELL_WIDTH_LIMIT as int,
            );
        }
        let nwx = cell_world_pos.x + params.h_scale * (self.position.1 as i64);
        let nwz = cell_world_pos.z + params.h_scale * (self.position.0 as i64);
        let min_y = params.base_elevation + params.v_scale * (self.chunk.min_y as i64);
        let max_y = params.base_elevation + params.v_scale * (self.chunk.max_y as i64);
        let tile_worldly_width = params.h_scale * ((params.cell_width >> self.level) as i64);
        self.bbox = Some(
            AABB::new(
                Vec3 { x: nwx, y: min_y, z: nwz },
                Vec3 { x: nwx + tile_worldly_width, y: max_y, z: nwz + tile_worldly_width },
            ),
        );
    }
}

/// What the decoder guarantees of the tile at flat position `i`: its chunk
/// is the record at that node's offset, its grid coordinates are the
/// node's, and it is not yet placed.
pub open spec fn spec_tile_ok(t: Tile, data: Seq<u8>, offsets: Seq<u64>, i: int) -> bool {
    &&& spec_chunk_at(data, offsets[i] as int) == Some(t.chunk@)
    &&& t.level == level_of(i as nat)
    &&& t.position.0 == row_of(i as nat)
    &&& t.position.1 == col_of(i as nat)
    &&& t.bbox is None
}

impl QuadTree<Tile> {
    /// Decodes one tile per tree node, walking the levels top-down and
    /// each level row-major, each chunk at its offset from the table, and
    /// assembles the complete tree.
    pub fn read_from(reader: &mut ByteReader, depth: u32, offsets: &Vec<u64>) -> (r: Result<
        Self,
        LoadError,
    >)
        requires
            old(reader).wf(),
            1 <= depth <= MAX_TREE_DEPTH,
            offsets@.len() == spec_full_size(depth as nat),
        ensures
            final(reader).contents() == old(reader).contents(),
            final(reader).wf(),
            match r {
                Ok(tree) => {
                    &&& tree.wf()
                    &&& tree.spec_depth() == depth
                    &&& tree@.len() == spec_full_size(depth as nat)
                    &&& forall|i: int|
                        0 <= i < tree@.len() ==> spec_tile_ok(
                            #[trigger] tree@[i],
                            old(reader).contents(),
                            offsets@,
                            i,
                        )
                },
                Err(e) => {
                    &&& e == LoadError::TruncatedRead
                    &&& exists|i: int|
                        0 <= i < spec_full_size(depth as nat) && spec_chunk_at(
                            old(reader).contents(),
                            #[trigger] offsets@[i] as int,
                        ) is None
                },
            },
    {
        let ghost data = old(reader).contents();
        let mut tiles: Vec<Tile> = Vec::new();

        let mut level: u32 = 0;
        while level < depth
            invariant
                reader.wf(),
                data == old(reader).contents(),
                reader.contents() == data,
                level <= depth <= MAX_TREE_DEPTH,
                offsets@.len() == spec_full_size(depth as nat),
                tiles@.len() == spec_full_size(level as nat),
                forall|i: int|
                    0 <= i < tiles@.len() ==> spec_tile_ok(#[trigger] tiles@[i], data, offsets@, i),
            decreases depth - level,
        {
            proof {
                lemma_full_size_monotone((level + 1) as nat, depth as nat);
                lemma_level_extent(level as nat);
                vstd::arithmetic::power2::lemma2_to64();
                vstd::arithmetic::power2::lemma_pow2_strictly_increases(level as nat, 16);
                vstd::bits::lemma_u32_shl_is_mul(1, level);
            }
            let n: u32 = 1 << level;

            let mut row: u32 = 0;
            while row < n
                invariant
                    reader.wf(),
                    data == old(reader).contents(),
                    reader.contents() == data,
                    level < depth <= MAX_TREE_DEPTH,
                    n == pow2(level as nat),
                    offsets@.len() == spec_full_size(depth as nat),
                    spec_full_size((level + 1) as nat) <= spec_full_size(depth as nat),
                    spec_full_size(level as nat) + pow2(level as nat) * pow2(level as nat)
                        == spec_full_size((level + 1) as nat),
                    row <= n,
                    tiles@.len() == spec_full_size(level as nat) + row * pow2(level as nat),
                    forall|i: int|
                        0 <= i < tiles@.len() ==> spec_tile_ok(
                            #[trigger] tiles@[i],
                            data,
                            offsets@,
                            i,
                        ),
                decreases n - row,
            {
                let mut col: u32 = 0;
                while col < n
                    invariant
                        reader.wf(),
                        data == old(reader).contents(),
                        reader.contents() == data,
                        level < depth <= MAX_TREE_DEPTH,
                        n == pow2(level as nat),
                        offsets@.len() == spec_full_size(depth as nat),
                        spec_full_size((level + 1) as nat) <= spec_full_size(depth as nat),
                        spec_full_size(level as nat) + pow2(level as nat) * pow2(level as nat)
                            == spec_full_size((level + 1) as nat),
                        row < n,
                        col <= n,
                        tiles@.len() == spec_full_size(level as nat) + row * pow2(level as nat)
                            + col,
                        forall|i: int|
                            0 <= i < tiles@.len() ==> spec_tile_ok(
                                #[trigger] tiles@[i],
                                data,
                                offsets@,
                                i,
                            ),
                    decreases n - col,
                {
                    let idx = node_index(level, row, col);
                    proof {
                        lemma_node_index_inverse(level as nat, row as nat, col as nat);
                    }
                    let chunk = match Chunk::read_from(reader, offsets[idx as usize]) {
                        Ok(c) => c,
                        Err(e) => {
                            return Err(e);
                        },
                    };
                    tiles.push(Tile { chunk, position: (row, col), level, bbox: None });
                    col = col + 1;
                }
                proof {
                    vstd::arithmetic::mul::lemma_mul_is_distributive_add_other_way(
                        pow2(level as nat) as int,
                        row as int,
                        1,
                    );
                }
                row = row + 1;
            }
            level = level + 1;
        }

        Ok(QuadTree::build_complete_tree(tiles, depth))
    }
}

/// The little-endian encoding of one vertex record.
pub open spec fn spec_vertex_to_le_bytes(v: HFVertex) -> Seq<u8> {
    crate::disk_util::spec_i16_to_le_bytes(v.x) + crate::disk_util::spec_i16_to_le_bytes(v.y)
        + crate::disk_util::spec_i16_to_le_bytes(v.z) + crate::disk_util::spec_i16_to_le_bytes(
        v.morph_delta,
    )
}

/// Round trip: a vertex decodes exactly from its own encoding.
pub proof fn lemma_vertex_round_trip(v: HFVertex)
    ensures
        spec_vertex_to_le_bytes(v).len() == 8,
        spec_vertex_at(spec_vertex_to_le_bytes(v), 0) == v,
{
    crate::disk_util::lemma_le_round_trip(0, 0, 0, v.x);
    crate::disk_util::lemma_le_round_trip(0, 0, 0, v.y);
    crate::disk_util::lemma_le_round_trip(0, 0, 0, v.z);
    crate::disk_util::lemma_le_round_trip(0, 0, 0, v.morph_delta);
    let s = spec_vertex_to_le_bytes(v);
    assert(s.subrange(0, 2) =~= crate::disk_util::spec_i16_to_le_bytes(v.x));
    assert(s.subrange(2, 4) =~= crate::disk_util::spec_i16_to_le_bytes(v.y));
    assert(s.subrange(4, 6) =~= crate::disk_util::spec_i16_to_le_bytes(v.z));
    assert(s.subrange(6, 8) =~= crate::disk_util::spec_i16_to_le_bytes(v.morph_delta));
}

/// The little-endian encoding of a chunk header.
pub open spec fn spec_chunk_header_to_le_bytes(h: ChunkHeader) -> Seq<u8> {
    vstd::bytes::spec_u32_to_le_bytes(h.max_error_bits) + vstd::bytes::spec_u32_to_le_bytes(
        h.n_verts,
    ) + vstd::bytes::spec_u32_to_le_bytes(h.n_indices) + crate::disk_util::spec_i16_to_le_bytes(
        h.min_y,
    ) + crate::disk_util::spec_i16_to_le_bytes(h.max_y)
}

/// Round trip: a chunk header decodes exactly from its own encoding.
pub proof fn lemma_chunk_header_round_trip(h: ChunkHeader)
    ensures
        spec_chunk_header_to_le_bytes(h).len() == 16,
        spec_chunk_header_at(spec_chunk_header_to_le_bytes(h), 0) == h,
{
    crate::disk_util::lemma_le_round_trip(0, h.max_error_bits, 0, h.min_y);
    crate::disk_util::lemma_le_round_trip(0, h.n_verts, 0, h.max_y);
    crate::disk_util::lemma_le_round_trip(0, h.n_indices, 0, 0);
    let s = spec_chunk_header_to_le_bytes(h);
    assert(s.subrange(0, 4) =~= vstd::bytes::spec_u32_to_le_bytes(h.max_error_bits));
    assert(s.subrange(4, 8) =~= vstd::bytes::spec_u32_to_le_bytes(h.n_verts));
    assert(s.subrange(8, 12) =~= vstd::bytes::spec_u32_to_le_bytes(h.n_indices));
    assert(s.subrange(12, 14) =~= crate::disk_util::spec_i16_to_le_bytes(h.min_y));
    assert(s.subrange(14, 16) =~= crate::disk_util::spec_i16_to_le_bytes(h.max_y));
}

pub const CELL_MAGIC: u32 = 0x63656C6C;

pub const CELL_MIN_DEPTH: u32 = 1;

pub const CELL_MAX_DEPTH: u32 = 9;

/// The cell format's 16-byte header.
#[derive(Clone, Copy, Debug, PartialEq, Eq, Structural)]
pub struct CellHeader {
    pub magic: u32,
    pub compressed: bool,
    pub size: u32,
    pub depth: u32,
}

/// The header whose sixteen bytes start the data; a nonzero second word
/// marks the cell compressed.
pub open spec fn spec_cell_header(data: Seq<u8>) -> CellHeader {
    CellHeader {
        magic: spec_u32_from_le_bytes(data.subrange(0, 4)),
        compressed: spec_u32_from_le_bytes(data.subrange(4, 8)) != 0,
        size: spec_u32_from_le_bytes(data.subrange(8, 12)),
        depth: spec_u32_from_le_bytes(data.subrange(12, 16)),
    }
}

impl CellHeader {
    /// Decodes the four header words at the cursor.
    pub fn read_from(reader: &mut ByteReader) -> (r: Result<Self, LoadError>)
        requires
            old(reader).wf(),
            old(reader).spec_pos() == 0,
        ensures
            final(reader).contents() == old(reader).contents(),
            final(reader).wf(),
            match r {
                Ok(h) => {
                    &&& old(reader).contents().len() >= 16
                    &&& h == spec_cell_header(old(reader).contents())
                    &&& final(reader).spec_pos() == 16
                },
                Err(e) => {
                    &&& e == LoadError::TruncatedRead
                    &&& old(reader).contents().len() < 16
                },
            },
    {
        let mut magic: u32 = 0;
        let mut compressed: u32 = 0;
        let mut size: u32 = 0;
        let mut depth: u32 = 0;

        if let Err(e) = read_value(reader, &mut magic) {
            return Err(e);
        }
        if let Err(e) = read_value(reader, &mut compressed) {
            return Err(e);
        }
        if let Err(e) = read_value(reader, &mut size) {
            return Err(e);
        }
        if let Err(e) = read_value(reader, &mut depth) {
            return Err(e);
        }

        Ok(CellHeader { magic, compressed: compressed != 0, size, depth })
    }
}

/// The offset table entries of a cell file.
pub open spec fn spec_cell_offsets(data: Seq<u8>, depth: u32) -> Seq<u64> {
    Seq::new(
        spec_full_size(depth as nat),
        |i: int| spec_u64_from_le_bytes(data.subrange(16 + 8 * i, 16 + 8 * i + 8)),
    )
}

/// Why loading a cell file fails, or `None` where it succeeds: the header
/// checks in their order, then the offset table, then the chunks.
pub open spec fn spec_cell_error(data: Seq<u8>, cell_width: u32) -> Option<LoadError> {
    if data.len() < 16 {
        Some(LoadError::TruncatedRead)
    } else {
        let h = spec_cell_header(data);
        if h.magic != CELL_MAGIC {
            Some(LoadError::InvalidFormat)
        } else if h.compressed {
            Some(LoadError::UnsupportedFeature)
        } else if h.size != cell_width {
            Some(LoadError::SizeMismatch)
        } else if h.depth < CELL_MIN_DEPTH || h.depth > CELL_MAX_DEPTH {
            Some(LoadError::DepthOutOfRange)
        } else if data.len() < 16 + 8 * spec_full_size(h.depth as nat) {
            Some(LoadError::TruncatedRead)
        } else if exists|i: int|
            0 <= i < spec_full_size(h.depth as nat) && spec_chunk_at(
                data,
                #[trigger] spec_cell_offsets(data, h.depth)[i] as int,
            ) is None {
            Some(LoadError::TruncatedRead)
        } else {
            None
        }
    }
}

/// One cell of the map: its grid position, its heightfield quadtree, its
/// optional color and normal texture quadtrees, and — once placed into
/// the map — the width it covers in world units.
#[derive(Debug)]
pub struct Cell {
    pub position: (u32, u32),
    pub depth: u32,
    pub lod: QuadTree<Tile>,
    pub color_tqt: Option<TexturedQuadTree>,
    pub normal_tqt: Option<TexturedQuadTree>,
    pub worldly_width: Option<i64>,
}

impl Cell {
    /// What the decoder establishes: a complete tree of the stored depth
    /// whose tiles carry their own node's level and grid coordinates.
    pub open spec fn wf(&self) -> bool {
        &&& self.lod.wf()
        &&& self.lod.spec_depth() == self.depth
        &&& CELL_MIN_DEPTH <= self.depth <= CELL_MAX_DEPTH
        &&& forall|i: int|
            0 <= i < self.lod@.len() ==> {
                &&& (#[trigger] self.lod@[i]).level == level_of(i as nat)
                &&& self.lod@[i].position.0 == row_of(i as nat)
                &&& self.lod@[i].position.1 == col_of(i as nat)
            }
    }

    /// Whether the cell has been placed into the map.
    pub open spec fn spec_is_in_map(&self) -> bool {
        self.worldly_width is Some
    }

    /// Decodes a whole cell file: header, validation, offset table, then
    /// every chunk, in the canonical node order.
    pub fn new(
        data: Vec<u8>,
        position: (u32, u32),
        color_tqt: Option<TexturedQuadTree>,
        normal_tqt: Option<TexturedQuadTree>,
        cell_width: u32,
    ) -> (r: Result<Self, LoadError>)
        ensures
            match r {
                Ok(c) => {
                    &&& spec_cell_error(data@, cell_width) is None
                    &&& data@.len() >= 16
                    &&& c.wf()
                    &&& c.position == position
                    &&& c.depth == spec_cell_header(data@).depth
                    &&& c.color_tqt == color_tqt
                    &&& c.normal_tqt == normal_tqt
                    &&& c.worldly_width is None
                    &&& forall|i: int|
                        0 <= i < c.lod@.len() ==> spec_tile_ok(
                            #[trigger] c.lod@[i],
                            data@,
                            spec_cell_offsets(data@, c.depth),
                            i,
                        )
                },
                Err(e) => spec_cell_error(data@, cell_width) == Some(e),
            },
    {
        let ghost gdata = data@;
        let mut reader = ByteReader::new(data);

        let header = match CellHeader::read_from(&mut reader) {
            Ok(h) => h,
            Err(e) => {
                return Err(e);
            },
        };

        if header.magic != CELL_MAGIC {
            return Err(LoadError::InvalidFormat);
        }
        if header.compressed {
            return Err(LoadError::UnsupportedFeature);
        }
        if header.size != cell_width {
            return Err(LoadError::SizeMismatch);
        }
        if header.depth < CELL_MIN_DEPTH || header.depth > CELL_MAX_DEPTH {
            return Err(LoadError::DepthOutOfRange);
        }

        let n_tiles = full_size(header.depth);
        let offsets = match read_offset_table(&mut reader, n_tiles) {
            Ok(o) => o,
            Err(e) => {
                return Err(e);
            },
        };
        proof {
            assert(offsets@ =~= spec_cell_offsets(gdata, header.depth));
        }

        let lod = match QuadTree::<Tile>::read_from(&mut reader, header.depth, &offsets) {
            Ok(t) => t,
            Err(e) => {
                return Err(e);
            },
        };

        proof {
            assert forall|i: int| 0 <= i < lod@.len() implies {
                &&& (#[trigger] lod@[i]).level == level_of(i as nat)
                &&& lod@[i].position.0 == row_of(i as nat)
                &&& lod@[i].position.1 == col_of(i as nat)
            } by {
                assert(spec_tile_ok(lod@[i], gdata, offsets@, i));
            }
            assert forall|i: int|
                0 <= i < spec_full_size(header.depth as nat) implies spec_chunk_at(
                gdata,
                spec_cell_offsets(gdata, header.depth)[i] as int,
            ) is Some by {
                assert(spec_tile_ok(lod@[i], gdata, offsets@, i));
            }
        }

        Ok(
            Cell {
                position,
                depth: header.depth,
                lod,
                color_tqt,
                normal_tqt,
                worldly_width: None,
            },
        )
    }

    /// Whether the cell has been placed into the map.
    pub fn is_in_map(&self) -> (r: bool)
        ensures
            r == self.spec_is_in_map(),
    {
        match self.worldly_width {
            Some(_) => true,
            None => false,
        }
    }

    /// The world position of the cell's north-west corner.
    pub fn corner_world_position(&self) -> (r: Vec3)
        requires
            self.spec_is_in_map(),
            0 <= self.worldly_width.unwrap()
                <= crate::map::SCALE_LIMIT as int * crate::map::CELL_WIDTH_LIMIT as int,
            self.position.0 <= CELL_GRID_LIMIT,
            self.position.1 <= CELL_GRID_LIMIT,
        ensures
            r.x == self.worldly_width.unwrap() * self.position.1,
            r.y == 0,
            r.z == self.worldly_width.unwrap() * self.position.0,
            crate::geometry::vec_in_range(r, CELL_CORNER_LIMIT as int),
    {
        let width = match self.worldly_width {
            Some(w) => w,
            None => {
                proof {
                    assert(false);
                }
                0
            },
        };
        proof {
            crate::geometry::lemma_abs_mul_bound(
                width as int,
                self.position.0 as int,
                crate::map::SCALE_LIMIT as int * crate::map::CELL_WIDTH_LIMIT as int,
                CELL_GRID_LIMIT as int,
            );
            crate::geometry::lemma_abs_mul_bound(
                width as int,
                self.position.1 as int,
                crate::map::SCALE_LIMIT as int * crate::map::CELL_WIDTH_LIMIT as int,
                CELL_GRID_LIMIT as int,
            );
        }
        Vec3 { x: width * (self.position.1 as i64), y: 0, z: width * (self.position.0 as i64) }
    }

    /// Places the cell into the map: records the cell's world width and
    /// computes every tile's world bounding box from the cell's corner.
    /// To be called exactly once; placing an already placed cell would
    /// double-offset the boxes.
    pub fn put_in_map(&mut self, params: &MapParams)
        requires
            old(self).wf(),
            !old(self).spec_is_in_map(),
            params_in_range(*params),
            old(self).position.0 <= CELL_GRID_LIMIT,
            old(self).position.1 <= CELL_GRID_LIMIT,
        ensures
            final(self).wf(),
            final(self).spec_is_in_map(),
            final(self).worldly_width == Some(
                (params.h_scale * params.cell_width) as i64,
            ),
            final(self).position == old(self).position,
            final(self).depth == old(self).depth,
            final(self).color_tqt == old(self).color_tqt,
            final(self).normal_tqt == old(self).normal_tqt,
            final(self).lod@.len() == old(self).lod@.len(),
            forall|i: int|
                0 <= i < final(self).lod@.len() ==> {
                    &&& (#[trigger] final(self).lod@[i]).chunk == old(self).lod@[i].chunk
                    &&& final(self).lod@[i].position == old(self).lod@[i].position
                    &&& final(self).lod@[i].level == old(self).lod@[i].level
                    &&& final(self).lod@[i].bbox == Some(
                        spec_tile_bbox(
                            *params,
                            spec_placed_corner(*params, old(self).position),
                            old(self).lod@[i].position,
                            old(self).lod@[i].level,
                            old(self).lod@[i].chunk.min_y,
                            old(self).lod@[i].chunk.max_y,
                        ),
                    )
                },
    {
        proof {
            vstd::arithmetic::mul::lemma_mul_nonnegative(
                params.h_scale as int,
                params.cell_width as int,
            );
            vstd::arithmetic::mul::lemma_mul_upper_bound(
                params.h_scale as int,
                crate::map::SCALE_LIMIT as int,
                params.cell_width as int,
                crate::map::CELL_WIDTH_LIMIT as int,
            );
        }
        let w = params.world_cell_width();
        self.worldly_width = Some(w);
        let pos = self.corner_world_position();
        proof {
            assert forall|i: int| 0 <= i < self.lod@.len() implies {
                &&& (#[trigger] self.lod@[i]).level <= MAX_TREE_DEPTH
                &&& self.lod@[i].position.0 < pow2(self.lod@[i].level as nat)
                &&& self.lod@[i].position.1 < pow2(self.lod@[i].level as nat)
            } by {
                crate::quadtree::lemma_level_of_bounds(i as nat);
                crate::quadtree::lemma_node_index_onto(i as nat);
                if level_of(i as nat) >= self.lod.spec_depth() {
                    lemma_full_size_monotone(
                        self.lod.spec_depth() as nat,
                        level_of(i as nat),
                    );
                }
            }
        }
        place_tiles(self.lod.mut_view(), pos, params);
    }
}

/// Computes every tile's world box in place, from the owning cell's
/// corner and the map's placement parameters.
fn place_tiles(tiles: &mut Vec<Tile>, corner: Vec3, params: &MapParams)
    requires
        params_in_range(*params),
        crate::geometry::vec_in_range(corner, CELL_CORNER_LIMIT as int),
        forall|i: int|
            0 <= i < old(tiles)@.len() ==> {
                &&& (#[trigger] old(tiles)@[i]).level <= MAX_TREE_DEPTH
                &&& old(tiles)@[i].position.0 < pow2(old(tiles)@[i].level as nat)
                &&& old(tiles)@[i].position.1 < pow2(old(tiles)@[i].level as nat)
            },
    ensures
        final(tiles)@.len() == old(tiles)@.len(),
        forall|i: int|
            0 <= i < final(tiles)@.len() ==> {
                &&& (#[trigger] final(tiles)@[i]).chunk == old(tiles)@[i].chunk
                &&& final(tiles)@[i].position == old(tiles)@[i].position
                &&& final(tiles)@[i].level == old(tiles)@[i].level
                &&& final(tiles)@[i].bbox == Some(
                    spec_tile_bbox(
                        *params,
                        corner,
                        old(tiles)@[i].position,
                        old(tiles)@[i].level,
                        old(tiles)@[i].chunk.min_y,
                        old(tiles)@[i].chunk.max_y,
                    ),
                )
            },
{
    let n = tiles.len();
    let mut i: usize = 0;
    while i < n
        invariant
            params_in_range(*params),
            crate::geometry::vec_in_range(corner, CELL_CORNER_LIMIT as int),
            n == tiles@.len() == old(tiles)@.len(),
            i <= n,
            forall|j: int|
                0 <= j < n ==> {
                    &&& (#[trigger] old(tiles)@[j]).level <= MAX_TREE_DEPTH
                    &&& old(tiles)@[j].position.0 < pow2(old(tiles)@[j].level as nat)
                    &&& old(tiles)@[j].position.1 < pow2(old(tiles)@[j].level as nat)
                },
            forall|j: int| i <= j < n ==> #[trigger] tiles@[j] == old(tiles)@[j],
            forall|j: int|
                0 <= j < i ==> {
                    &&& (#[trigger] tiles@[j]).chunk == old(tiles)@[j].chunk
                    &&& tiles@[j].position == old(tiles)@[j].position
                    &&& tiles@[j].level == old(tiles)@[j].level
                    &&& tiles@[j].bbox == Some(
                        spec_tile_bbox(
                            *params,
                            corner,
                            old(tiles)@[j].position,
                            old(tiles)@[j].level,
                            old(tiles)@[j].chunk.min_y,
                            old(tiles)@[j].chunk.max_y,
                        ),
                    )
                },
        decreases n - i,
    {
        proof {
            assert(tiles@[i as int] == old(tiles)@[i as int]);
        }
        let t = tile_at_mut(tiles, i);
        t.put_in_map_in_cell(corner, params);
        i = i + 1;
    }
}

/// An exclusive reference to one tile of the vector.
fn tile_at_mut(v: &mut Vec<Tile>, i: usize) -> (element: &mut Tile)
    requires
        i < old(v).len(),
    ensures
        *element == old(v)@[i as int],
        final(v)@ == old(v)@.update(i as int, *final(element)),
{
    &mut v[i]
}

/// The corner a cell at this grid position gets when placed with these
/// parameters.
pub open spec fn spec_placed_corner(p: MapParams, position: (u32, u32)) -> Vec3 {
    let w = p.h_scale * p.cell_width;
    Vec3 { x: (w * position.1) as i64, y: 0, z: (w * position.0) as i64 }
}

} // verus!
