//! Save requests and the persistence pass: a builder that attaches a save
//! request to a tilemap, the planner that turns the request into the exact
//! list of files to write, the completion step that clears the request and
//! decides whether the map is destroyed, and the load path that rebuilds a
//! grid from the written bytes.

use vstd::prelude::*;

verus! {

use crate::codec::{
    dec_meta, dec_path_map, dec_pattern, dec_tile_cells, enc_meta, enc_path_map, enc_pattern,
    enc_tile_cells, get_meta, get_path_map, get_pattern, get_tile_cells, opt_string_view,
    put_meta, put_path_map, put_pattern, put_tile_cells, tile_cells_wf, MetaView, PathTilemap,
    PatternView, TilemapMeta, TilemapPattern,
};
use crate::grid::TileGrid;
use crate::tile::{serialized_tile_wf, SerializedTile, Tile, TileBuilder};

/// An auxiliary data layer selectable for persistence beyond the mandatory
/// tile layer. Each layer owns one bit of the request mask.
#[derive(Clone, Copy, Debug, PartialEq, Eq, Structural)]
pub enum TilemapLayer {
    /// The tile/color layer: one optional tile record per grid cell.
    Color,
    /// The pathfinding-cost layer: one optional cost cell per grid cell.
    Path,
}

impl TilemapLayer {
    /// The bit this layer occupies in a save request's mask.
    pub fn mask(&self) -> (r: u32)
        ensures
            r == self.spec_mask(),
    {
        match self {
            TilemapLayer::Color => 1,
            TilemapLayer::Path => 2,
        }
    }

    pub open spec fn spec_mask(&self) -> u32 {
        match self {
            TilemapLayer::Color => 1,
            TilemapLayer::Path => 2,
        }
    }
}

/// The two mutually exclusive output modes of a save request.
#[derive(Clone, Copy, Debug, PartialEq, Eq, Structural)]
pub enum TilemapSaverMode {
    /// A full snapshot: a metadata file plus one file per selected layer,
    /// under a directory named after the map.
    Tilemap,
    /// A reusable stamp: one file holding the grid extent and the selected
    /// layers inline, without map identity or texture metadata.
    MapPattern,
}

/// A pending save request, attached to a tilemap by
/// `TilemapSaverBuilder::build` and consumed by the save pass.
#[derive(Clone, Debug)]
pub struct TilemapSaver {
    pub path: String,
    pub texture_path: Option<String>,
    pub layers: u32,
    pub remove_map_after_done: bool,
    pub mode: TilemapSaverMode,
}

/// Builds a save request.
#[derive(Clone, Debug)]
pub struct TilemapSaverBuilder {
    pub path: String,
    pub texture_path: Option<String>,
    pub layers: u32,
    pub remove_map_after_done: bool,
    pub mode: TilemapSaverMode,
}

impl TilemapSaverBuilder {
    /// Start a save request rooted at `path`. In `Tilemap` mode the files go
    /// to `<path>/<map name>/`; in `MapPattern` mode a single
    /// `<path>/<map name>.pattern` file is written. By default no layer is
    /// selected, no texture path recorded, the map is kept, and the mode is
    /// `Tilemap`.
    pub fn new(path: String) -> (r: TilemapSaverBuilder)
        ensures
            r.path == path,
            r.texture_path is None,
            r.layers == 0u32,
            !r.remove_map_after_done,
            r.mode == TilemapSaverMode::Tilemap,
    {
        TilemapSaverBuilder {
            path,
            texture_path: None,
            layers: 0,
            remove_map_after_done: false,
            mode: TilemapSaverMode::Tilemap,
        }
    }

    /// Select one more layer to save, OR-ing its bit into the mask.
    pub fn with_layer(self, layer: TilemapLayer) -> (r: TilemapSaverBuilder)
        ensures
            r == (TilemapSaverBuilder { layers: self.layers | layer.spec_mask(), ..self }),
    {
        let layers = self.layers | layer.mask();
        TilemapSaverBuilder { layers, ..self }
    }

    /// Record the texture path to store in the metadata file.
    pub fn with_texture(self, texture_path: String) -> (r: TilemapSaverBuilder)
        ensures
            r == (TilemapSaverBuilder { texture_path: Some(texture_path), ..self }),
    {
        TilemapSaverBuilder { texture_path: Some(texture_path), ..self }
    }

    /// Destroy the tilemap once its save completes successfully.
    pub fn remove_map_after_done(self) -> (r: TilemapSaverBuilder)
        ensures
            r == (TilemapSaverBuilder { remove_map_after_done: true, ..self }),
    {
        TilemapSaverBuilder { remove_map_after_done: true, ..self }
    }

    /// Choose the output mode; the default is `TilemapSaverMode::Tilemap`.
    pub fn with_mode(self, mode: TilemapSaverMode) -> (r: TilemapSaverBuilder)
        ensures
            r == (TilemapSaverBuilder { mode, ..self }),
    {
        TilemapSaverBuilder { mode, ..self }
    }

    /// Attach the request to a tilemap as its save marker; the next save
    /// pass over that map consumes it.
    pub fn build(self, target: &mut TileGrid)
        ensures
            final(target).saver == Some(
                TilemapSaver {
                    path: self.path,
                    texture_path: self.texture_path,
                    layers: self.layers,
                    remove_map_after_done: self.remove_map_after_done,
                    mode: self.mode,
                },
            ),
            final(target).id == old(target).id,
            final(target).name == old(target).name,
            final(target).tile_type == old(target).tile_type,
            final(target).size_x == old(target).size_x,
            final(target).size_y == old(target).size_y,
            final(target).render_chunk_size == old(target).render_chunk_size,
            final(target).tiles == old(target).tiles,
            final(target).gens == old(target).gens,
            final(target).insertion == old(target).insertion,
            old(target).wf() ==> final(target).wf(),
    {
        target.saver = Some(
            TilemapSaver {
                path: self.path,
                texture_path: self.texture_path,
                layers: self.layers,
                remove_map_after_done: self.remove_map_after_done,
                mode: self.mode,
            },
        );
        proof {
            if old(target).wf() {
                assert forall|i: int|
                    0 <= i < target.tiles@.len() && target.tiles@[i] is Some implies target.cell_wf(
                    i,
                ) by {
                    assert(old(target).cell_wf(i));
                }
                assert forall|i: int|
                    0 <= i < target.tiles@.len()
                        && target.tiles@[i] is Some implies target.insertion@.contains(
                    i as usize,
                ) by {
                    assert(old(target).insertion@.contains(i as usize));
                }
            }
        }
    }
}

/// Why a persistence operation failed.
#[derive(Clone, Copy, Debug, PartialEq, Eq, Structural)]
pub enum PersistenceErrorKind {
    /// A directory or file could not be created, written or read.
    IoFailure,
    /// The bytes of a file do not form a well-formed encoding, or the
    /// decoded values contradict each other.
    EncodingFailure,
}

/// A persistence failure, attributed to the file it concerns. The save pass
/// for a tilemap aborts its remaining writes when one is reported.
#[derive(Clone, Debug)]
pub struct PersistenceError {
    pub kind: PersistenceErrorKind,
    pub path: String,
}

impl PersistenceError {
    /// An I/O failure at `path`, as the embedding application reports it.
    pub fn io_failure(path: String) -> (r: PersistenceError)
        ensures
            r.kind == PersistenceErrorKind::IoFailure,
            r.path == path,
    {
        PersistenceError { kind: PersistenceErrorKind::IoFailure, path }
    }

    /// A malformed-encoding failure at `path`.
    pub fn encoding_failure(path: String) -> (r: PersistenceError)
        ensures
            r.kind == PersistenceErrorKind::EncodingFailure,
            r.path == path,
    {
        PersistenceError { kind: PersistenceErrorKind::EncodingFailure, path }
    }
}

/// One file a save request produces: an optional subdirectory (the map's
/// name, in tilemap mode), the file name, and the exact bytes to write.
#[derive(Clone, Debug)]
pub struct SaveFile {
    pub directory: Option<String>,
    pub name: String,
    pub data: Vec<u8>,
}

pub ghost struct SaveFileView {
    pub directory: Option<Seq<char>>,
    pub name: Seq<char>,
    pub data: Seq<u8>,
}

impl View for SaveFile {
    type V = SaveFileView;

    open spec fn view(&self) -> SaveFileView {
        SaveFileView {
            directory: opt_string_view(self.directory),
            name: self.name@,
            data: self.data@,
        }
    }
}

/// Everything a save request asks the embedding application to do: the
/// files to write, in order, and whether the map is destroyed afterwards.
#[derive(Clone, Debug)]
pub struct SavePlan {
    pub files: Vec<SaveFile>,
    pub remove_map_after_done: bool,
}

/// The per-cell image of a grid that persistence stores: one optional
/// serialized record per cell, row-major, `None` for empty cells.
pub open spec fn grid_cells_image(g: TileGrid) -> Seq<Option<SerializedTile>> {
    g.tiles@.map_values(
        |o: Option<Tile>|
            match o {
                Some(t) => Some(t.spec_serialized()),
                None => None::<SerializedTile>,
            },
    )
}

/// The metadata a tilemap-mode save writes for `g` under request `s`.
pub open spec fn spec_meta_of(g: TileGrid, s: TilemapSaver) -> MetaView {
    MetaView {
        size_x: g.size_x,
        size_y: g.size_y,
        render_chunk_size: g.render_chunk_size,
        tile_type: g.tile_type,
        name: g.name@,
        texture_path: opt_string_view(s.texture_path),
        layers: s.layers,
    }
}

/// The pattern a pattern-mode save accumulates: no label, the grid extent,
/// the tile cells when their bit is selected, and the pathfinding cells when
/// their bit is selected and the layer exists.
pub open spec fn spec_pattern_of(g: TileGrid, path: Option<PathTilemap>, s: TilemapSaver)
    -> PatternView {
    PatternView {
        label: None::<Seq<char>>,
        size_x: g.size_x,
        size_y: g.size_y,
        tiles: if s.layers & 1 != 0 {
            grid_cells_image(g)
        } else {
            Seq::<Option<SerializedTile>>::empty()
        },
        path_tiles: if s.layers & 2 != 0 && path is Some {
            Some(path->0.tiles@)
        } else {
            None::<Seq<Option<crate::codec::PathTile>>>
        },
    }
}

/// The files a save request produces, in write order. In tilemap mode: the
/// metadata file, then one file per selected layer, all under a directory
/// named after the map. In pattern mode: one `<name>.pattern` file.
pub open spec fn spec_save_files(g: TileGrid, path: Option<PathTilemap>, s: TilemapSaver) -> Seq<
    SaveFileView,
> {
    if s.mode == TilemapSaverMode::Tilemap {
        let meta = seq![
            SaveFileView {
                directory: Some(g.name@),
                name: "tilemap_meta"@,
                data: enc_meta(spec_meta_of(g, s)),
            },
        ];
        let tiles = if s.layers & 1 != 0 {
            seq![
                SaveFileView {
                    directory: Some(g.name@),
                    name: "tiles"@,
                    data: enc_tile_cells(grid_cells_image(g)),
                },
            ]
        } else {
            Seq::<SaveFileView>::empty()
        };
        let path_tiles = if s.layers & 2 != 0 && path is Some {
            seq![
                SaveFileView {
                    directory: Some(g.name@),
                    name: "path_tiles"@,
                    data: enc_path_map(path->0@),
                },
            ]
        } else {
            Seq::<SaveFileView>::empty()
        };
        meta + tiles + path_tiles
    } else {
        seq![
            SaveFileView {
                directory: None::<Seq<char>>,
                name: g.name@ + ".pattern"@,
                data: enc_pattern(spec_pattern_of(g, path, s)),
            },
        ]
    }
}

/// The view of a plan's file list.
pub open spec fn save_files_view(files: Seq<SaveFile>) -> Seq<SaveFileView> {
    files.map_values(|f: SaveFile| f@)
}

/// Collect the per-cell image of a grid, as the persistence pass stores it.
pub fn gather_cells(map: &TileGrid) -> (r: Vec<Option<SerializedTile>>)
    requires
        map.wf(),
    ensures
        r@ == grid_cells_image(*map),
        tile_cells_wf(r@),
{
    let mut out: Vec<Option<SerializedTile>> = Vec::new();
    let n = map.tiles.len();
    let mut i: usize = 0;
    while i < n
        invariant
            map.wf(),
            n == map.tiles@.len(),
            i <= n,
            out@.len() == i,
            forall|j: int| 0 <= j < i ==> out@[j] == grid_cells_image(*map)[j],
            tile_cells_wf(out@),
        decreases n - i,
    {
        let cell = match &map.tiles[i] {
            Some(t) => Some(t.to_serialized()),
            None => None,
        };
        proof {
            if map.tiles@[i as int] is Some {
                assert(map.cell_wf(i as int));
            }
        }
        out.push(cell);
        i = i + 1;
    }
    proof {
        assert(out@ =~= grid_cells_image(*map));
    }
    out
}

/// Turn a save request into the files to write.
///
/// Pure planning: nothing is written and nothing on the map changes here.
/// In tilemap mode the plan holds the metadata file and then one file per
/// selected layer bit (the pathfinding file only when that layer exists);
/// in pattern mode it holds the single pattern file. The embedding
/// application writes the files in order, aborting the remaining writes for
/// this map on the first failure, and then calls `complete_save`.
pub fn save(map: &TileGrid, path_tilemap: &Option<PathTilemap>, saver: &TilemapSaver) -> (r:
    SavePlan)
    requires
        map.wf(),
    ensures
        save_files_view(r.files@) == spec_save_files(*map, *path_tilemap, *saver),
        r.remove_map_after_done == saver.remove_map_after_done,
{
    let mut files: Vec<SaveFile> = Vec::new();
    if saver.mode == TilemapSaverMode::Tilemap {
        let meta = TilemapMeta {
            size_x: map.size_x,
            size_y: map.size_y,
            render_chunk_size: map.render_chunk_size,
            tile_type: map.tile_type,
            name: map.name.clone(),
            texture_path: match &saver.texture_path {
                Some(t) => Some(t.clone()),
                None => None,
            },
            layers: saver.layers,
        };
        let mut meta_bytes: Vec<u8> = Vec::new();
        put_meta(&mut meta_bytes, &meta);
        files.push(
            SaveFile {
                directory: Some(map.name.clone()),
                name: String::from_str("tilemap_meta"),
                data: meta_bytes,
            },
        );
        if saver.layers & 1 != 0 {
            let cells = gather_cells(map);
            let mut cell_bytes: Vec<u8> = Vec::new();
            put_tile_cells(&mut cell_bytes, &cells);
            files.push(
                SaveFile {
                    directory: Some(map.name.clone()),
                    name: String::from_str("tiles"),
                    data: cell_bytes,
                },
            );
        }
        if saver.layers & 2 != 0 {
            match path_tilemap {
                Some(pm) => {
                    let mut path_bytes: Vec<u8> = Vec::new();
                    put_path_map(&mut path_bytes, pm);
                    files.push(
                        SaveFile {
                            directory: Some(map.name.clone()),
                            name: String::from_str("path_tiles"),
                            data: path_bytes,
                        },
                    );
                },
                None => {},
            }
        }
    } else {
        let tiles = if saver.layers & 1 != 0 {
            gather_cells(map)
        } else {
            Vec::new()
        };
        let path_tiles = if saver.layers & 2 != 0 {
            match path_tilemap {
                Some(pm) => Some(pm.tiles.clone()),
                None => None,
            }
        } else {
            None
        };
        let pattern = TilemapPattern {
            label: None,
            size_x: map.size_x,
            size_y: map.size_y,
            tiles,
            path_tiles,
        };
        let mut pattern_bytes: Vec<u8> = Vec::new();
        put_pattern(&mut pattern_bytes, &pattern);
        proof {
            assert(pattern@ =~~= spec_pattern_of(*map, *path_tilemap, *saver));
        }
        files.push(
            SaveFile {
                directory: None,
                name: map.name.clone().concat(".pattern"),
                data: pattern_bytes,
            },
        );
    }
    proof {
        assert(save_files_view(files@) =~~= spec_save_files(*map, *path_tilemap, *saver));
    }
    SavePlan { files, remove_map_after_done: saver.remove_map_after_done }
}

/// Finish a save pass for one map: the save request is always cleared, so
/// the operation never repeats on a later pass, and the map is destroyed —
/// consumed, returning `None` — exactly when the write succeeded and the
/// request asked for removal. A failed write never destroys the map.
pub fn complete_save(map: TileGrid, write_ok: bool) -> (r: Option<TileGrid>)
    ensures
        map.saver is Some && write_ok && map.saver->0.remove_map_after_done ==> r is None,
        !(map.saver is Some && write_ok && map.saver->0.remove_map_after_done) ==> (r is Some
            && r->0.saver is None && r->0.id == map.id && r->0.name == map.name && r->0.tile_type
            == map.tile_type && r->0.size_x == map.size_x && r->0.size_y == map.size_y
            && r->0.render_chunk_size == map.render_chunk_size && r->0.tiles == map.tiles
            && r->0.gens == map.gens && r->0.insertion == map.insertion),
        r is Some && map.wf() ==> r->0.wf(),
{
    let destroy = match &map.saver {
        Some(s) => write_ok && s.remove_map_after_done,
        None => false,
    };
    if destroy {
        None
    } else {
        let mut map = map;
        let ghost m0 = map;
        map.saver = None;
        proof {
            if m0.wf() {
                assert forall|i: int|
                    0 <= i < map.tiles@.len() && map.tiles@[i] is Some implies map.cell_wf(i) by {
                    assert(m0.cell_wf(i));
                }
                assert forall|i: int|
                    0 <= i < map.tiles@.len()
                        && map.tiles@[i] is Some implies map.insertion@.contains(i as usize) by {
                    assert(m0.insertion@.contains(i as usize));
                }
            }
        }
        Some(map)
    }
}

// ---------------------------------------------------------------------------
// The load path: bytes back to values, chunk ids recomputed, never trusted.
// ---------------------------------------------------------------------------

/// Parse a metadata file. Fails with `EncodingFailure` at `path` unless the
/// bytes are one well-formed metadata record and nothing else.
pub fn load_meta(path: &str, data: &Vec<u8>) -> (r: Result<TilemapMeta, PersistenceError>)
    ensures
        r is Ok <==> (dec_meta(data@, 0) matches Some(m) && m.1 == data@.len()),
        r matches Ok(v) ==> (dec_meta(data@, 0) matches Some(m) && v@ == m.0),
        r matches Err(e) ==> e.kind == PersistenceErrorKind::EncodingFailure && e.path@ == path@,
{
    match get_meta(data, 0) {
        Some((m, consumed)) => {
            if consumed == data.len() {
                Ok(m)
            } else {
                Err(PersistenceError::encoding_failure(path.to_owned()))
            }
        },
        None => Err(PersistenceError::encoding_failure(path.to_owned())),
    }
}

/// Parse a tile-layer file into its cell image.
pub fn load_tiles(path: &str, data: &Vec<u8>) -> (r: Result<
    Vec<Option<SerializedTile>>,
    PersistenceError,
>)
    ensures
        r is Ok <==> (dec_tile_cells(data@, 0) matches Some(m) && m.1 == data@.len()),
        r matches Ok(v) ==> (dec_tile_cells(data@, 0) matches Some(m) && v@ == m.0),
        r matches Err(e) ==> e.kind == PersistenceErrorKind::EncodingFailure && e.path@ == path@,
{
    match get_tile_cells(data, 0) {
        Some((cells, consumed)) => {
            if consumed == data.len() {
                Ok(cells)
            } else {
                Err(PersistenceError::encoding_failure(path.to_owned()))
            }
        },
        None => Err(PersistenceError::encoding_failure(path.to_owned())),
    }
}

/// Parse a pathfinding-layer file.
pub fn load_path_map(path: &str, data: &Vec<u8>) -> (r: Result<PathTilemap, PersistenceError>)
    ensures
        r is Ok <==> (dec_path_map(data@, 0) matches Some(m) && m.1 == data@.len()),
        r matches Ok(v) ==> (dec_path_map(data@, 0) matches Some(m) && v@ == m.0),
        r matches Err(e) ==> e.kind == PersistenceErrorKind::EncodingFailure && e.path@ == path@,
{
    match get_path_map(data, 0) {
        Some((pm, consumed)) => {
            if consumed == data.len() {
                Ok(pm)
            } else {
                Err(PersistenceError::encoding_failure(path.to_owned()))
            }
        },
        None => Err(PersistenceError::encoding_failure(path.to_owned())),
    }
}

/// Parse a pattern file.
pub fn load_pattern(path: &str, data: &Vec<u8>) -> (r: Result<TilemapPattern, PersistenceError>)
    ensures
        r is Ok <==> (dec_pattern(data@, 0) matches Some(m) && m.1 == data@.len()),
        r matches Ok(v) ==> (dec_pattern(data@, 0) matches Some(m) && v@ == m.0),
        r matches Err(e) ==> e.kind == PersistenceErrorKind::EncodingFailure && e.path@ == path@,
{
    match get_pattern(data, 0) {
        Some((p, consumed)) => {
            if consumed == data.len() {
                Ok(p)
            } else {
                Err(PersistenceError::encoding_failure(path.to_owned()))
            }
        },
        None => Err(PersistenceError::encoding_failure(path.to_owned())),
    }
}

/// When a metadata record and a cell image can be rebuilt into a grid: a
/// positive chunk size, an extent whose cell count the machine can address,
/// a cell image of exactly that count, and well-formed records in it.
pub open spec fn load_grid_ok(m: MetaView, cells: Seq<Option<SerializedTile>>) -> bool {
    &&& m.render_chunk_size > 0
    &&& m.size_x as int * m.size_y as int <= usize::MAX as int
    &&& cells.len() == m.size_x as int * m.size_y as int
    &&& tile_cells_wf(cells)
}

/// A row-major cell index decomposes into an in-bounds coordinate.
pub proof fn lemma_cell_coord(i: int, sx: int, sy: int)
    requires
        0 <= i < sx * sy,
        sx > 0,
    ensures
        0 <= i % sx < sx,
        0 <= i / sx < sy,
        (i / sx) * sx + i % sx == i,
{
    assert(0 <= i % sx < sx && 0 <= i / sx && (i / sx) * sx + i % sx == i) by (nonlinear_arith)
        requires
            sx > 0,
            0 <= i,
    ;
    assert(i / sx < sy) by (nonlinear_arith)
        requires
            sx > 0,
            0 <= i < sx * sy,
    ;
}

/// Rebuild a grid from a metadata record and a tile-layer cell image, as
/// the load path does after parsing both files.
///
/// Every tile's chunk id is recomputed from its coordinate and the chunk
/// size in the metadata; no persisted chunk id is trusted. Cells are
/// reinserted in row-major order into a fresh grid, so on success the grid's
/// cell image — including its empty cells — equals the input exactly.
/// Fails with `EncodingFailure` at `path` exactly when the metadata and the
/// image cannot form a grid (see `load_grid_ok`).
pub fn load_tilemap(id: u32, meta: &TilemapMeta, cells: &Vec<Option<SerializedTile>>, path: &str)
    -> (r: Result<TileGrid, PersistenceError>)
    ensures
        r is Ok <==> load_grid_ok(meta@, cells@),
        r matches Ok(g) ==> {
            &&& g.wf()
            &&& g.id == id
            &&& g.name@ == meta.name@
            &&& g.tile_type == meta.tile_type
            &&& g.size_x == meta.size_x
            &&& g.size_y == meta.size_y
            &&& g.render_chunk_size == meta.render_chunk_size
            &&& g.saver is None
            &&& grid_cells_image(g) == cells@
        },
        r matches Err(e) ==> e.kind == PersistenceErrorKind::EncodingFailure && e.path@ == path@,
{
    if meta.render_chunk_size == 0 {
        return Err(PersistenceError::encoding_failure(path.to_owned()));
    }
    proof {
        assert(meta.size_x as u64 * meta.size_y as u64 <= 0xFFFF_FFFFu64 * 0xFFFF_FFFFu64
            && meta.size_x as u64 * meta.size_y as u64 == meta.size_x as int * meta.size_y as int)
            by (nonlinear_arith)
            requires
                meta.size_x <= 0xFFFF_FFFFu32,
                meta.size_y <= 0xFFFF_FFFFu32,
        ;
    }
    let prod: u64 = (meta.size_x as u64) * (meta.size_y as u64);
    if prod > usize::MAX as u64 {
        return Err(PersistenceError::encoding_failure(path.to_owned()));
    }
    if cells.len() as u64 != prod {
        return Err(PersistenceError::encoding_failure(path.to_owned()));
    }
    // Validate every record before building anything.
    let n = cells.len();
    let mut i: usize = 0;
    while i < n
        invariant
            n == cells@.len(),
            i <= n,
            forall|j: int|
                0 <= j < i && cells@[j] is Some ==> serialized_tile_wf(cells@[j]->0),
        decreases n - i,
    {
        match &cells[i] {
            Some(st) => {
                let anim_ok = match &st.anim {
                    Some(a) => a.layer < crate::MAX_LAYER_COUNT,
                    None => true,
                };
                if !(st.top_layer < crate::MAX_LAYER_COUNT && anim_ok && st.texture_indices[0]
                    >= -1 && st.texture_indices[1] >= -1 && st.texture_indices[2] >= -1
                    && st.texture_indices[3] >= -1) {
                    proof {
                        if crate::tile::layers_wf(cells@[i as int]->0.texture_indices) {
                        }
                        assert(!serialized_tile_wf(cells@[i as int]->0));
                        assert(!tile_cells_wf(cells@));
                    }
                    return Err(PersistenceError::encoding_failure(path.to_owned()));
                }
                proof {
                    let t = cells@[i as int]->0;
                    assert forall|k: int|
                        0 <= k < crate::MAX_LAYER_COUNT implies t.texture_indices[k] >= -1 by {
                        if k == 0 {
                        } else if k == 1 {
                        } else if k == 2 {
                        } else {
                            assert(k == 3);
                        }
                    }
                }
            },
            None => {},
        }
        i = i + 1;
    }
    let mut grid = TileGrid::new(
        id,
        meta.name.clone(),
        meta.tile_type,
        meta.size_x,
        meta.size_y,
        meta.render_chunk_size,
    );
    let sxu = meta.size_x as usize;
    let mut i: usize = 0;
    while i < n
        invariant
            n == cells@.len(),
            i <= n,
            tile_cells_wf(cells@),
            grid.wf(),
            grid.id == id,
            grid.name@ == meta.name@,
            grid.tile_type == meta.tile_type,
            grid.size_x == meta.size_x,
            grid.size_y == meta.size_y,
            grid.render_chunk_size == meta.render_chunk_size,
            grid.saver is None,
            grid.tiles@.len() == n,
            sxu == meta.size_x,
            forall|j: int|
                0 <= j < i ==> #[trigger] grid.tiles@[j] is Some == cells@[j] is Some,
            forall|j: int|
                0 <= j < i && cells@[j] is Some ==> grid.tiles@[j]->0.spec_serialized()
                    == cells@[j]->0,
            forall|j: int| i <= j < n ==> grid.tiles@[j] is None,
        decreases n - i,
    {
        proof {
            lemma_cell_coord(i as int, grid.size_x as int, grid.size_y as int);
        }
        match &cells[i] {
            Some(st) => {
                let x: u32 = (i % sxu) as u32;
                let y: u32 = (i / sxu) as u32;
                let builder = TileBuilder::from_serialized_tile(st);
                proof {
                    assert(serialized_tile_wf(cells@[i as int]->0));
                    assert(grid.spec_cell(x, y) == i as int);
                }
                match grid.place(x, y, &builder) {
                    Ok(_) => {},
                    Err(_) => {
                        proof {
                            assert(false);
                        }
                        return Err(PersistenceError::encoding_failure(path.to_owned()));
                    },
                }
            },
            None => {},
        }
        i = i + 1;
    }
    proof {
        assert(grid_cells_image(grid) =~= cells@);
    }
    Ok(grid)
}

// ---------------------------------------------------------------------------
// Round-trip laws: what a save wrote, a load reads back unchanged.
// ---------------------------------------------------------------------------

/// Saving in tilemap mode with the tile layer selected and loading the two
/// files back reproduces the metadata and the exact cell image of the grid,
/// empty cells included; the image and metadata then satisfy the conditions
/// under which `load_tilemap` rebuilds an identical (coordinate to record)
/// mapping.
pub proof fn lemma_tilemap_roundtrip(g: TileGrid, path: Option<PathTilemap>, s: TilemapSaver)
    requires
        g.wf(),
        s.mode == TilemapSaverMode::Tilemap,
        s.layers & 1 != 0,
        vstd::utf8::encode_utf8(g.name@).len() <= u64::MAX,
        s.texture_path matches Some(t) ==> vstd::utf8::encode_utf8(t@).len() <= u64::MAX,
    ensures
        spec_save_files(g, path, s).len() >= 2,
        dec_meta(spec_save_files(g, path, s)[0].data, 0) == Some(
            (spec_meta_of(g, s), spec_save_files(g, path, s)[0].data.len() as int),
        ),
        dec_tile_cells(spec_save_files(g, path, s)[1].data, 0) == Some(
            (grid_cells_image(g), spec_save_files(g, path, s)[1].data.len() as int),
        ),
        load_grid_ok(spec_meta_of(g, s), grid_cells_image(g)),
{
    let files = spec_save_files(g, path, s);
    let m = spec_meta_of(g, s);
    let cells = grid_cells_image(g);
    let em = enc_meta(m);
    let ec = enc_tile_cells(cells);
    assert(files[0].data == em);
    assert(files[1].data == ec);
    assert(em.subrange(0, em.len() as int) =~= em);
    crate::codec::lemma_dec_enc_meta(em, 0, m);
    assert forall|i: int| 0 <= i < cells.len() && cells[i] is Some implies serialized_tile_wf(
        cells[i]->0,
    ) by {
        assert(g.cell_wf(i));
    }
    assert(ec.subrange(0, ec.len() as int) =~= ec);
    crate::codec::lemma_dec_enc_tile_cells(ec, 0, cells);
}

/// Saving in pattern mode with both layer bits selected and loading the one
/// pattern file back reconstructs both the tile layer and the pathfinding
/// layer, cell for cell, with the grid's dimensions.
pub proof fn lemma_pattern_roundtrip(g: TileGrid, pm: PathTilemap, s: TilemapSaver)
    requires
        g.wf(),
        s.mode == TilemapSaverMode::MapPattern,
        s.layers & 1 != 0,
        s.layers & 2 != 0,
        pm.tiles@.len() <= u64::MAX,
    ensures
        spec_save_files(g, Some(pm), s).len() == 1,
        dec_pattern(spec_save_files(g, Some(pm), s)[0].data, 0) == Some(
            (spec_pattern_of(g, Some(pm), s), spec_save_files(g, Some(pm), s)[0].data.len() as int),
        ),
        spec_pattern_of(g, Some(pm), s).tiles == grid_cells_image(g),
        spec_pattern_of(g, Some(pm), s).path_tiles == Some(pm.tiles@),
        spec_pattern_of(g, Some(pm), s).size_x == g.size_x,
        spec_pattern_of(g, Some(pm), s).size_y == g.size_y,
{
    let pv = spec_pattern_of(g, Some(pm), s);
    let ep = enc_pattern(pv);
    assert(spec_save_files(g, Some(pm), s)[0].data == ep);
    assert forall|i: int| 0 <= i < pv.tiles.len() && pv.tiles[i] is Some implies
        serialized_tile_wf(pv.tiles[i]->0) by {
        assert(g.cell_wf(i));
    }
    assert(ep.subrange(0, ep.len() as int) =~= ep);
    crate::codec::lemma_dec_enc_pattern(ep, 0, pv);
}

} // verus!
