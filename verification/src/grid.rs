//! The chunk indexer and the tile grid: a sparse row-major arena of tile
//! records, grouped by render chunk for batched GPU upload.

use vstd::prelude::*;

verus! {

use crate::MAX_LAYER_COUNT;
use crate::tile::{builder_wf, tile_layers_wf, Tile, TileBuilder, TileType};

broadcast use vstd::array::group_array_axioms;

/// How a record follows from a cell index: the helper the chunk-grouping
/// spec uses to read a record out of the cell array.
pub open spec fn record_at(tiles: Seq<Option<Tile>>) -> spec_fn(usize) -> Tile {
    |i: usize| tiles[i as int]->0
}

/// The predicate selecting the records of one render chunk.
pub open spec fn in_chunk(c: usize) -> spec_fn(Tile) -> bool {
    |t: Tile| t.render_chunk_index == c
}

/// Filtering after appending one element keeps the filtered prefix and adds
/// the element exactly when it matches.
proof fn lemma_filter_push(s: Seq<Tile>, p: spec_fn(Tile) -> bool, x: Tile)
    ensures
        s.push(x).filter(p) == if p(x) {
            s.filter(p).push(x)
        } else {
            s.filter(p)
        },
{
    reveal_with_fuel(Seq::<Tile>::filter, 2);
    assert(s.push(x).drop_last() =~= s);
    assert(s.push(x).last() == x);
    assert(s.push(x).len() == s.len() + 1);
}

/// Number of chunks per chunk row: the width in chunks of the map, rounded
/// up exactly when the map width is not a multiple of the chunk size. This
/// asymmetric rounding ties the chunk-row stride to whether the width divides
/// evenly and must be reproduced exactly for chunk ids to stay stable.
pub open spec fn spec_chunks_per_row(grid_size_x: u32, render_chunk_size: u32) -> int {
    if grid_size_x as int % (render_chunk_size as int) == 0 {
        grid_size_x as int / (render_chunk_size as int)
    } else {
        grid_size_x as int / (render_chunk_size as int) + 1
    }
}

/// The linear render-chunk id of the tile at `(x, y)`.
pub open spec fn spec_chunk_id(x: u32, y: u32, grid_size_x: u32, render_chunk_size: u32) -> int {
    (y as int / (render_chunk_size as int)) * spec_chunks_per_row(grid_size_x, render_chunk_size)
        + x as int / (render_chunk_size as int)
}

/// A chunk id of an in-bounds coordinate is below the cell count of the grid.
pub proof fn lemma_chunk_id_lt(x: u32, y: u32, gsx: u32, gsy: u32, c: u32)
    requires
        c > 0,
        x < gsx,
        y < gsy,
    ensures
        0 <= spec_chunk_id(x, y, gsx, c) < gsx as int * gsy as int,
{
    let ci = c as int;
    let stride = spec_chunks_per_row(gsx, c);
    assert(0 <= x as int / ci <= x as int && 0 <= y as int / ci <= y as int) by (nonlinear_arith)
        requires
            ci > 0,
    ;
    assert(gsx as int / ci <= gsx as int) by (nonlinear_arith)
        requires
            ci > 0,
    ;
    assert(stride <= gsx) by {
        if ci == 1 {
            assert(gsx as int % 1 == 0 && gsx as int / 1 == gsx as int) by (nonlinear_arith);
        } else {
            assert(gsx as int / ci <= gsx as int / 2) by (nonlinear_arith)
                requires
                    ci >= 2,
            ;
            assert(gsx as int / 2 + 1 <= gsx as int) by (nonlinear_arith)
                requires
                    gsx >= 1,
            ;
        }
    };
    assert(x as int / ci <= (gsx - 1) as int) by (nonlinear_arith)
        requires
            ci > 0,
            x as int <= (gsx - 1) as int,
    ;
    assert(y as int / ci <= (gsy - 1) as int) by (nonlinear_arith)
        requires
            ci > 0,
            y as int <= (gsy - 1) as int,
    ;
    assert(1 <= stride) by {
        if gsx as int % ci == 0 {
            assert(gsx as int / ci >= 1) by (nonlinear_arith)
                requires
                    ci > 0,
                    gsx >= 1,
                    gsx as int % ci == 0,
            ;
        }
    };
    assert((y as int / ci) * stride <= (gsy - 1) as int * gsx as int) by (nonlinear_arith)
        requires
            0 <= y as int / ci <= (gsy - 1) as int,
            1 <= stride <= gsx as int,
    ;
    assert((gsy - 1) as int * gsx as int + gsx as int == gsy as int * gsx as int)
        by (nonlinear_arith);
    assert(0 <= (y as int / ci) * stride) by (nonlinear_arith)
        requires
            0 <= y as int / ci,
            0 <= stride,
    ;
}

/// Map a tile's grid coordinate to its linear render-chunk id. Pure: the
/// result is a function of the arguments alone, so repeated calls agree and
/// always match a direct recomputation. Coordinates are caller-validated to
/// lie within the grid.
pub fn chunk_id(x: u32, y: u32, grid_size_x: u32, grid_size_y: u32, render_chunk_size: u32) -> (r:
    usize)
    requires
        render_chunk_size > 0,
        x < grid_size_x,
        y < grid_size_y,
        grid_size_x as int * grid_size_y as int <= usize::MAX as int,
    ensures
        r as int == spec_chunk_id(x, y, grid_size_x, render_chunk_size),
        r < grid_size_x as int * grid_size_y as int,
{
    proof {
        lemma_chunk_id_lt(x, y, grid_size_x, grid_size_y, render_chunk_size);
    }
    let cx: u32 = x / render_chunk_size;
    let cy: u32 = y / render_chunk_size;
    let stride: u32 = if grid_size_x % render_chunk_size == 0 {
        grid_size_x / render_chunk_size
    } else {
        proof {
            assert(grid_size_x as int % (render_chunk_size as int) != 0 ==> grid_size_x as int
                / (render_chunk_size as int) + 1 <= u32::MAX as int) by (nonlinear_arith)
                requires
                    render_chunk_size > 0,
            ;
        }
        grid_size_x / render_chunk_size + 1
    };
    let id: u64 = (cy as u64) * (stride as u64) + (cx as u64);
    id as usize
}

/// The cell index `y * size_x + x` of an in-bounds coordinate lies within the
/// cell count, and the coordinate can be recovered from it.
pub proof fn lemma_cell_index(x: u32, y: u32, sx: u32, sy: u32)
    requires
        x < sx,
        y < sy,
    ensures
        0 <= (y as int * sx as int + x as int) < (sx as int * sy as int),
        (y as int * sx as int + x as int) % (sx as int) == x as int,
        (y as int * sx as int + x as int) / (sx as int) == y as int,
{
    assert(0 <= y as int * sx as int + x as int && (y as int * sx as int + x as int) < (sx as int
        * sy as int)) by (nonlinear_arith)
        requires
            x < sx,
            y < sy,
    ;
    assert((y as int * sx as int + x as int) % (sx as int) == x as int && (y as int * sx as int
        + x as int) / (sx as int) == y as int) by (nonlinear_arith)
        requires
            0 <= x < sx,
            0 <= y,
    ;
}

/// Errors reported by tile placement and mutation.
#[derive(Clone, Copy, Debug, PartialEq, Eq, Structural)]
pub enum TilemapError {
    /// The coordinate lies outside the grid extent.
    OutOfBounds,
    /// A tile already occupies the coordinate; remove it before placing.
    SlotOccupied,
    /// The layer index is not below the maximum layer count.
    LayerOutOfRange,
    /// An attached animation drives the layer; its target must be changed
    /// instead of the static index.
    AnimationOwnsLayer,
}

/// A stable handle to a placed tile: the cell it occupies plus a generation
/// stamp, so a handle left over from a removed tile never aliases the tile
/// placed there afterwards.
#[derive(Clone, Copy, Debug, PartialEq, Eq, Structural, Hash)]
pub struct TileId {
    pub index: usize,
    pub generation: u64,
}

/// The generation stamp a cell receives on its next placement.
pub open spec fn next_gen(g: u64) -> u64 {
    if g == u64::MAX {
        0
    } else {
        (g + 1) as u64
    }
}

/// The record stored when `builder` is placed at `(x, y)` of `grid`.
pub open spec fn spec_placed_tile(grid: TileGrid, x: u32, y: u32, b: TileBuilder) -> Tile {
    Tile {
        tilemap_id: grid.id,
        render_chunk_index: spec_chunk_id(x, y, grid.size_x, grid.render_chunk_size) as usize,
        index_x: x,
        index_y: y,
        texture_indices: b.texture_indices,
        top_layer: b.top_layer,
        color: b.color,
        anim: b.anim,
    }
}

/// A sparse 2-D arena of tile records for one map, stored row-major and
/// grouped by render-chunk id for batched GPU upload.
#[derive(Debug)]
pub struct TileGrid {
    /// Identifier of this map, written into each record's back-reference.
    pub id: u32,
    /// The map's name; persistence derives directory and file names from it.
    pub name: String,
    /// Geometry of the map's tiles, persisted in the metadata file.
    pub tile_type: TileType,
    /// Extent of the grid in tiles.
    pub size_x: u32,
    pub size_y: u32,
    /// Tiles per render-chunk edge.
    pub render_chunk_size: u32,
    /// One cell per coordinate in row-major order; `None` marks an empty cell.
    pub tiles: Vec<Option<Tile>>,
    /// Per-cell generation stamps backing `TileId` freshness.
    pub gens: Vec<u64>,
    /// Cell indices of the occupied cells, oldest placement first.
    pub insertion: Vec<usize>,
    /// A pending save request, attached by `TilemapSaverBuilder::build` and
    /// cleared when the save pass completes.
    pub saver: Option<crate::saver::TilemapSaver>,
}

impl TileGrid {
    pub open spec fn cell_count(&self) -> int {
        self.size_x as int * self.size_y as int
    }

    pub open spec fn spec_cell(&self, x: u32, y: u32) -> int {
        y as int * self.size_x as int + x as int
    }

    pub open spec fn in_bounds(&self, x: u32, y: u32) -> bool {
        x < self.size_x && y < self.size_y
    }

    /// The record at a coordinate, `None` when empty or out of bounds.
    pub open spec fn spec_get(&self, x: u32, y: u32) -> Option<Tile> {
        if self.in_bounds(x, y) {
            self.tiles@[self.spec_cell(x, y)]
        } else {
            None::<Tile>
        }
    }

    /// Well-formedness of the record stored at cell `i`: its back-reference,
    /// coordinate and cached chunk id agree with the grid, and its layer data
    /// is valid.
    pub open spec fn cell_wf(&self, i: int) -> bool {
        let t = self.tiles@[i]->0;
        &&& t.tilemap_id == self.id
        &&& t.index_x as int == i % (self.size_x as int)
        &&& t.index_y as int == i / (self.size_x as int)
        &&& t.index_x < self.size_x
        &&& t.index_y < self.size_y
        &&& t.render_chunk_index as int == spec_chunk_id(
            t.index_x,
            t.index_y,
            self.size_x,
            self.render_chunk_size,
        )
        &&& tile_layers_wf(t.texture_indices, t.top_layer, t.anim)
    }

    /// The grid invariant: storage sized to the extent, every record
    /// consistent with its cell, and the insertion list holding exactly the
    /// occupied cells, without duplicates.
    pub open spec fn wf(&self) -> bool {
        &&& self.render_chunk_size > 0
        &&& self.cell_count() <= usize::MAX as int
        &&& self.tiles@.len() == self.cell_count()
        &&& self.gens@.len() == self.cell_count()
        &&& forall|i: int|
            0 <= i < self.tiles@.len() && self.tiles@[i] is Some ==> self.cell_wf(i)
        &&& forall|k: int|
            0 <= k < self.insertion@.len() ==> (#[trigger] self.insertion@[k]) < self.tiles@.len()
                && self.tiles@[self.insertion@[k] as int] is Some
        &&& forall|k1: int, k2: int|
            0 <= k1 < k2 < self.insertion@.len() ==> self.insertion@[k1] != self.insertion@[k2]
        &&& forall|i: int|
            0 <= i < self.tiles@.len() && self.tiles@[i] is Some ==> self.insertion@.contains(
                i as usize,
            )
    }

    /// Whether `id` refers to the tile currently stored at its cell.
    pub open spec fn id_live(&self, id: TileId) -> bool {
        &&& id.index < self.tiles@.len()
        &&& self.tiles@[id.index as int] is Some
        &&& self.gens@[id.index as int] == id.generation
    }

    /// Create an empty grid of the given extent.
    pub fn new(id: u32, name: String, tile_type: TileType, size_x: u32, size_y: u32,
        render_chunk_size: u32) -> (r: TileGrid)
        requires
            render_chunk_size > 0,
            size_x as int * size_y as int <= usize::MAX as int,
        ensures
            r.wf(),
            r.id == id,
            r.name == name,
            r.tile_type == tile_type,
            r.size_x == size_x,
            r.size_y == size_y,
            r.render_chunk_size == render_chunk_size,
            r.tiles@.len() == size_x as int * size_y as int,
            forall|i: int| 0 <= i < r.tiles@.len() ==> r.tiles@[i] is None,
            forall|i: int| 0 <= i < r.gens@.len() ==> r.gens@[i] == 0,
            r.insertion@.len() == 0,
            r.saver is None,
    {
        let n: usize = (size_x as usize) * (size_y as usize);
        let mut tiles: Vec<Option<Tile>> = Vec::new();
        let mut gens: Vec<u64> = Vec::new();
        let mut i: usize = 0;
        while i < n
            invariant
                i <= n,
                tiles@.len() == i,
                gens@.len() == i,
                forall|j: int| 0 <= j < i ==> tiles@[j] is None,
                forall|j: int| 0 <= j < i ==> gens@[j] == 0,
            decreases n - i,
        {
            tiles.push(None);
            gens.push(0);
            i = i + 1;
        }
        TileGrid {
            id,
            name,
            tile_type,
            size_x,
            size_y,
            render_chunk_size,
            tiles,
            gens,
            insertion: Vec::new(),
            saver: None,
        }
    }

    /// The row-major cell index of an in-bounds coordinate.
    fn cell_of(&self, x: u32, y: u32) -> (r: usize)
        requires
            self.wf(),
            self.in_bounds(x, y),
        ensures
            r as int == self.spec_cell(x, y),
            r < self.tiles@.len(),
    {
        proof {
            lemma_cell_index(x, y, self.size_x, self.size_y);
        }
        (y as usize) * (self.size_x as usize) + (x as usize)
    }

    /// Look a coordinate up; returns a copy of the record, `None` when the
    /// cell is empty or the coordinate out of bounds.
    pub fn get(&self, x: u32, y: u32) -> (r: Option<Tile>)
        requires
            self.wf(),
        ensures
            r == self.spec_get(x, y),
    {
        if x < self.size_x && y < self.size_y {
            let c = self.cell_of(x, y);
            self.tiles[c]
        } else {
            None
        }
    }

    /// Look a tile handle up; returns a copy of the record while the handle
    /// is live, `None` once the tile was removed or replaced.
    pub fn get_by_id(&self, id: TileId) -> (r: Option<Tile>)
        requires
            self.wf(),
        ensures
            self.id_live(id) ==> r == Some(self.tiles@[id.index as int]->0),
            !self.id_live(id) ==> r is None,
    {
        if id.index < self.tiles.len() {
            match self.tiles[id.index] {
                Some(t) => {
                    if self.gens[id.index] == id.generation {
                        Some(t)
                    } else {
                        None
                    }
                },
                None => None,
            }
        } else {
            None
        }
    }

    /// Place a tile built by `builder` at `(x, y)`.
    ///
    /// Fails with `OutOfBounds` when the coordinate lies outside the grid and
    /// with `SlotOccupied` when a tile already occupies it; a caller must
    /// remove the old tile explicitly, there is no silent overwrite. On
    /// success the record is stored with its chunk id recomputed from the
    /// coordinate, and the returned handle is fresh: it differs from every
    /// handle the cell issued before.
    pub fn place(&mut self, x: u32, y: u32, builder: &TileBuilder) -> (r: Result<TileId, TilemapError>)
        requires
            old(self).wf(),
            builder_wf(*builder),
        ensures
            final(self).wf(),
            final(self).id == old(self).id,
            final(self).name == old(self).name,
            final(self).tile_type == old(self).tile_type,
            final(self).size_x == old(self).size_x,
            final(self).size_y == old(self).size_y,
            final(self).render_chunk_size == old(self).render_chunk_size,
            final(self).saver == old(self).saver,
            !old(self).in_bounds(x, y) ==> r == Err::<TileId, TilemapError>(
                TilemapError::OutOfBounds,
            ) && *final(self) == *old(self),
            old(self).in_bounds(x, y) && old(self).spec_get(x, y) is Some ==> r == Err::<
                TileId,
                TilemapError,
            >(TilemapError::SlotOccupied) && *final(self) == *old(self),
            old(self).in_bounds(x, y) && old(self).spec_get(x, y) is None ==> ({
                let c = old(self).spec_cell(x, y);
                let g = next_gen(old(self).gens@[c]);
                &&& r == Ok::<TileId, TilemapError>(TileId { index: c as usize, generation: g })
                &&& g != old(self).gens@[c]
                &&& final(self).tiles@ == old(self).tiles@.update(
                    c,
                    Some(spec_placed_tile(*old(self), x, y, *builder)),
                )
                &&& final(self).gens@ == old(self).gens@.update(c, g)
                &&& final(self).insertion@ == old(self).insertion@.push(c as usize)
            }),
    {
        if !(x < self.size_x && y < self.size_y) {
            return Err(TilemapError::OutOfBounds);
        }
        let c = self.cell_of(x, y);
        if self.tiles[c].is_some() {
            return Err(TilemapError::SlotOccupied);
        }
        proof {
            lemma_cell_index(x, y, self.size_x, self.size_y);
        }
        let chunk = chunk_id(x, y, self.size_x, self.size_y, self.render_chunk_size);
        let tile = Tile {
            tilemap_id: self.id,
            render_chunk_index: chunk,
            index_x: x,
            index_y: y,
            texture_indices: builder.texture_indices,
            top_layer: builder.top_layer,
            color: builder.color,
            anim: builder.anim,
        };
        let og = self.gens[c];
        let g: u64 = if og == u64::MAX {
            0
        } else {
            og + 1
        };
        self.tiles.set(c, Some(tile));
        self.gens.set(c, g);
        self.insertion.push(c);
        proof {
            let sc = old(self).spec_cell(x, y);
            assert forall|k: int|
                0 <= k < old(self).insertion@.len() implies old(self).insertion@[k]
                != c as usize by {
                assert(old(self).tiles@[old(self).insertion@[k] as int] is Some);
            }
            assert forall|i: int|
                0 <= i < self.tiles@.len() && self.tiles@[i] is Some implies self.cell_wf(
                i,
            ) by {
                if i != sc {
                    assert(old(self).cell_wf(i));
                }
            }
            assert forall|i: int|
                0 <= i < self.tiles@.len() && self.tiles@[i] is Some implies self.insertion@.contains(
                i as usize,
            ) by {
                if i != sc {
                    assert(old(self).insertion@.contains(i as usize));
                    let k = choose|k: int|
                        0 <= k < old(self).insertion@.len() && old(self).insertion@[k]
                            == i as usize;
                    assert(self.insertion@[k] == i as usize);
                } else {
                    assert(self.insertion@[self.insertion@.len() - 1] == i as usize);
                }
            }
        }
        Ok(TileId { index: c, generation: g })
    }

    /// Detach and return the record at `(x, y)`; `None` when the cell is
    /// empty or the coordinate out of bounds, in which case nothing changes.
    pub fn remove(&mut self, x: u32, y: u32) -> (r: Option<Tile>)
        requires
            old(self).wf(),
        ensures
            final(self).wf(),
            final(self).id == old(self).id,
            final(self).name == old(self).name,
            final(self).tile_type == old(self).tile_type,
            final(self).size_x == old(self).size_x,
            final(self).size_y == old(self).size_y,
            final(self).render_chunk_size == old(self).render_chunk_size,
            final(self).saver == old(self).saver,
            final(self).gens@ == old(self).gens@,
            r == old(self).spec_get(x, y),
            old(self).spec_get(x, y) is None ==> *final(self) == *old(self),
            old(self).spec_get(x, y) is Some ==> ({
                let c = old(self).spec_cell(x, y);
                &&& final(self).tiles@ == old(self).tiles@.update(c, None::<Tile>)
                &&& final(self).insertion@ == old(self).insertion@.remove(
                    old(self).insertion@.index_of(c as usize),
                )
            }),
    {
        if !(x < self.size_x && y < self.size_y) {
            return None;
        }
        let c = self.cell_of(x, y);
        let prior = self.tiles[c];
        if prior.is_none() {
            return None;
        }
        proof {
            assert(old(self).insertion@.contains(c as usize));
        }
        self.tiles.set(c, None);
        // Find the one entry for this cell in the insertion list and drop it.
        let mut k: usize = 0;
        let n = self.insertion.len();
        while k < n && self.insertion[k] != c
            invariant
                n == self.insertion@.len(),
                k <= n,
                forall|j: int| 0 <= j < k ==> self.insertion@[j] != c,
                self.insertion@.contains(c as usize),
                self.insertion@ == old(self).insertion@,
            decreases n - k,
        {
            k = k + 1;
        }
        proof {
            let j = choose|j: int|
                0 <= j < self.insertion@.len() && self.insertion@[j] == c as usize;
            assert(k < n && self.insertion@[k as int] == c as usize) by {
                if k >= n {
                    assert(self.insertion@[j] != c);
                }
            }
        }
        self.insertion.remove(k);
        proof {
            let oins = old(self).insertion@;
            let io = oins.index_of(c as usize);
            assert(0 <= io < oins.len() && oins[io] == c as usize);
            // Both k and index_of pick an entry for cell c; entries are
            // unique, so they are the same position.
            assert(io == k as int);
            assert(self.insertion@ == oins.remove(k as int));
            assert forall|i: int|
                0 <= i < self.tiles@.len() && self.tiles@[i] is Some implies self.cell_wf(
                i,
            ) by {
                assert(old(self).cell_wf(i));
            }
            assert forall|j: int|
                0 <= j < self.insertion@.len() implies (#[trigger] self.insertion@[j])
                < self.tiles@.len() && self.tiles@[self.insertion@[j] as int] is Some by {
                if j < k as int {
                    assert(self.insertion@[j] == oins[j]);
                } else {
                    assert(self.insertion@[j] == oins[j + 1]);
                }
            }
            assert forall|i: int|
                0 <= i < self.tiles@.len() && self.tiles@[i] is Some implies self.insertion@.contains(
                i as usize,
            ) by {
                assert(old(self).insertion@.contains(i as usize));
                let j = choose|j: int| 0 <= j < oins.len() && oins[j] == i as usize;
                assert(j != k as int);
                if j < k as int {
                    assert(self.insertion@[j] == i as usize);
                } else {
                    assert(self.insertion@[j - 1] == i as usize);
                }
            }
        }
        prior
    }

    /// What `set_layer` leaves in the targeted record on success.
    pub open spec fn spec_layer_updated(t: Tile, layer: usize, texture_index: u32) -> Tile {
        Tile {
            texture_indices: vstd::array::spec_array_update(
                t.texture_indices,
                layer as int,
                texture_index as i32,
            ),
            top_layer: if layer > t.top_layer {
                layer
            } else {
                t.top_layer
            },
            ..t
        }
    }

    /// Set the static texture index of one layer of a placed tile.
    ///
    /// Fails with `LayerOutOfRange` when the slot does not exist and with
    /// `AnimationOwnsLayer` when an attached animation drives that slot: an
    /// animated layer's content is never driven by a static index, the
    /// animation's target layer must be changed instead. Otherwise the slot
    /// is set, the topmost populated layer raised if needed, and nothing else
    /// changes.
    pub fn set_layer(&mut self, id: TileId, layer: usize, texture_index: u32) -> (r: Result<(), TilemapError>)
        requires
            old(self).wf(),
            old(self).id_live(id),
            texture_index <= i32::MAX as u32,
        ensures
            final(self).wf(),
            final(self).id == old(self).id,
            final(self).name == old(self).name,
            final(self).tile_type == old(self).tile_type,
            final(self).size_x == old(self).size_x,
            final(self).size_y == old(self).size_y,
            final(self).render_chunk_size == old(self).render_chunk_size,
            final(self).saver == old(self).saver,
            final(self).gens@ == old(self).gens@,
            final(self).insertion@ == old(self).insertion@,
            final(self).id_live(id),
            layer >= MAX_LAYER_COUNT ==> r == Err::<(), TilemapError>(
                TilemapError::LayerOutOfRange,
            ) && *final(self) == *old(self),
            ({
                let t = old(self).tiles@[id.index as int]->0;
                &&& (layer < MAX_LAYER_COUNT && t.anim is Some && t.anim->0.layer == layer ==> r
                    == Err::<(), TilemapError>(TilemapError::AnimationOwnsLayer) && *final(self)
                    == *old(self))
                &&& (layer < MAX_LAYER_COUNT && !(t.anim is Some && t.anim->0.layer == layer)
                    ==> r == Ok::<(), TilemapError>(()) && final(self).tiles@
                    == old(self).tiles@.update(
                    id.index as int,
                    Some(Self::spec_layer_updated(t, layer, texture_index)),
                ))
            }),
    {
        if layer >= MAX_LAYER_COUNT {
            return Err(TilemapError::LayerOutOfRange);
        }
        let t = self.tiles[id.index].unwrap();
        match &t.anim {
            Some(a) => {
                if a.layer == layer {
                    return Err(TilemapError::AnimationOwnsLayer);
                }
            },
            None => {},
        }
        let mut texture_indices = t.texture_indices;
        texture_indices[layer] = texture_index as i32;
        let top_layer: usize = if layer > t.top_layer {
            layer
        } else {
            t.top_layer
        };
        let updated = Tile { texture_indices, top_layer, ..t };
        self.tiles.set(id.index, Some(updated));
        proof {
            assert forall|i: int|
                0 <= i < self.tiles@.len() && self.tiles@[i] is Some implies self.cell_wf(
                i,
            ) by {
                assert(old(self).cell_wf(i));
            }
            assert forall|i: int|
                0 <= i < self.tiles@.len() && self.tiles@[i] is Some implies self.insertion@.contains(
                i as usize,
            ) by {
                assert(old(self).tiles@[i] is Some);
            }
        }
        Ok(())
    }

    /// The records of the occupied cells whose chunk id is `c`, oldest
    /// placement first.
    pub open spec fn spec_tiles_in_chunk(&self, c: usize) -> Seq<Tile> {
        self.insertion@.map_values(record_at(self.tiles@)).filter(in_chunk(c))
    }

    /// Collect the tiles of one render chunk, in insertion order, as the
    /// render-batch builder consumes them for GPU upload.
    pub fn tiles_in_chunk(&self, c: usize) -> (r: Vec<Tile>)
        requires
            self.wf(),
        ensures
            r@ == self.spec_tiles_in_chunk(c),
    {
        let mut out: Vec<Tile> = Vec::new();
        let n = self.insertion.len();
        let mut k: usize = 0;
        while k < n
            invariant
                self.wf(),
                n == self.insertion@.len(),
                k <= n,
                out@ == self.insertion@.take(k as int).map_values(record_at(self.tiles@)).filter(
                    in_chunk(c),
                ),
            decreases n - k,
        {
            let idx = self.insertion[k];
            let t = self.tiles[idx].unwrap();
            proof {
                let f = record_at(self.tiles@);
                let p = in_chunk(c);
                let pre = self.insertion@.take(k as int);
                let now = self.insertion@.take(k as int + 1);
                assert(now =~= pre.push(idx));
                assert(now.map_values(f) =~= pre.map_values(f).push(t));
                lemma_filter_push(pre.map_values(f), p, t);
            }
            if t.render_chunk_index == c {
                out.push(t);
            }
            k = k + 1;
        }
        proof {
            assert(self.insertion@.take(n as int) =~= self.insertion@);
        }
        out
    }
}

/// Re-placing a tile where one was removed yields a fresh handle.
///
/// `remove` keeps every cell's generation stamp, and a successful `place` at
/// that cell returns a handle stamped `next_gen` of the stamp it found; that
/// handle therefore never equals the handle of the tile that was removed,
/// so a caller holding the stale handle cannot reach the new tile.
pub proof fn lemma_replaced_id_fresh(g: TileGrid, x: u32, y: u32, prior: TileId)
    requires
        g.wf(),
        g.id_live(prior),
        prior.index as int == g.spec_cell(x, y),
    ensures
        (TileId { index: prior.index, generation: next_gen(g.gens@[g.spec_cell(x, y)]) })
            != prior,
{
    assert(g.gens@[prior.index as int] == prior.generation);
    assert(next_gen(prior.generation) != prior.generation);
}

} // verus!
