use entitiles::codec::{PathTile, PathTilemap};
use entitiles::grid::TileGrid;
use entitiles::saver::{
    complete_save, load_meta, load_pattern, load_tilemap, load_tiles, save, PersistenceErrorKind,
    TilemapLayer, TilemapSaver, TilemapSaverBuilder, TilemapSaverMode,
};
use entitiles::tile::{AnimatedTile, Color4, TileBuilder, TileType};

fn sample_grid() -> TileGrid {
    let mut g = TileGrid::new(3, String::from("cavern"), TileType::IsometricDiamond, 10, 6, 4);
    let anim = AnimatedTile {
        layer: 1,
        sequence_start: 2,
        sequence_length: 6,
        fps_bits: 0x41c80000,
        is_loop: true,
    };
    g.place(0, 0, &TileBuilder::new(7)).unwrap();
    g.place(
        9,
        0,
        &TileBuilder::new(8)
            .with_color(Color4 { r: 1, g: 2, b: 3, a: 4 })
            .with_layer(2, 11),
    )
    .unwrap();
    g.place(4, 5, &TileBuilder::new(9).with_animation(anim)).unwrap();
    g
}

fn sample_path_map() -> PathTilemap {
    let mut tiles: Vec<Option<PathTile>> = vec![None; 60];
    tiles[0] = Some(PathTile { cost: 5 });
    tiles[59] = Some(PathTile { cost: 1000 });
    PathTilemap { size_x: 10, size_y: 6, tiles }
}

fn saver(mode: TilemapSaverMode, layers: u32, remove: bool) -> TilemapSaver {
    TilemapSaver {
        path: String::from("out"),
        texture_path: Some(String::from("textures/terrain.png")),
        layers,
        remove_map_after_done: remove,
        mode,
    }
}

#[test]
fn builder_defaults_and_layer_mask() {
    let b = TilemapSaverBuilder::new(String::from("maps"));
    assert_eq!(b.path, "maps");
    assert_eq!(b.layers, 0);
    assert!(b.texture_path.is_none());
    assert!(!b.remove_map_after_done);
    assert_eq!(b.mode, TilemapSaverMode::Tilemap);
    let b = b
        .with_layer(TilemapLayer::Color)
        .with_layer(TilemapLayer::Path)
        .with_texture(String::from("t.png"))
        .remove_map_after_done()
        .with_mode(TilemapSaverMode::MapPattern);
    assert_eq!(b.layers, 3);
    assert_eq!(b.texture_path.as_deref(), Some("t.png"));
    assert!(b.remove_map_after_done);
    assert_eq!(b.mode, TilemapSaverMode::MapPattern);
    // Selecting a layer twice is idempotent on the mask.
    let b = b.with_layer(TilemapLayer::Color);
    assert_eq!(b.layers, 3);
}

#[test]
fn builder_build_attaches_marker() {
    let mut g = sample_grid();
    TilemapSaverBuilder::new(String::from("maps"))
        .with_layer(TilemapLayer::Color)
        .build(&mut g);
    let s = g.saver.as_ref().unwrap();
    assert_eq!(s.path, "maps");
    assert_eq!(s.layers, 1);
    assert_eq!(s.mode, TilemapSaverMode::Tilemap);
}

#[test]
fn tilemap_mode_writes_meta_and_selected_layers() {
    let g = sample_grid();
    let pm = Some(sample_path_map());
    let plan = save(&g, &pm, &saver(TilemapSaverMode::Tilemap, 3, false));
    assert_eq!(plan.files.len(), 3);
    assert_eq!(plan.files[0].directory.as_deref(), Some("cavern"));
    assert_eq!(plan.files[0].name, "tilemap_meta");
    assert_eq!(plan.files[1].name, "tiles");
    assert_eq!(plan.files[2].name, "path_tiles");
    // Color layer only: no pathfinding file.
    let plan = save(&g, &pm, &saver(TilemapSaverMode::Tilemap, 1, false));
    assert_eq!(plan.files.len(), 2);
    // Pathfinding bit set but no layer present: the file is skipped.
    let plan = save(&g, &None, &saver(TilemapSaverMode::Tilemap, 3, false));
    assert_eq!(plan.files.len(), 2);
}

#[test]
fn tilemap_roundtrip_color_only() {
    let g = sample_grid();
    let plan = save(&g, &None, &saver(TilemapSaverMode::Tilemap, 1, false));
    assert_eq!(plan.files.len(), 2);
    let meta = load_meta("out/cavern/tilemap_meta", &plan.files[0].data).unwrap();
    assert_eq!(meta.size_x, 10);
    assert_eq!(meta.size_y, 6);
    assert_eq!(meta.render_chunk_size, 4);
    assert_eq!(meta.tile_type, TileType::IsometricDiamond);
    assert_eq!(meta.name, "cavern");
    assert_eq!(meta.texture_path.as_deref(), Some("textures/terrain.png"));
    assert_eq!(meta.layers, 1);
    let cells = load_tiles("out/cavern/tiles", &plan.files[1].data).unwrap();
    assert_eq!(cells.len(), 60);
    let g2 = load_tilemap(3, &meta, &cells, "out/cavern/tiles").unwrap();
    // The rebuilt grid holds the same (coordinate -> record) pairs,
    // with the same gaps at un-tiled coordinates.
    for y in 0..6u32 {
        for x in 0..10u32 {
            match (g.get(x, y), g2.get(x, y)) {
                (None, None) => {}
                (Some(a), Some(b)) => {
                    assert_eq!(a.texture_indices, b.texture_indices);
                    assert_eq!(a.top_layer, b.top_layer);
                    assert_eq!(a.color, b.color);
                    assert_eq!(a.anim, b.anim);
                    assert_eq!(a.index_x, b.index_x);
                    assert_eq!(a.index_y, b.index_y);
                    // Chunk ids are recomputed on load and agree with the
                    // saved grid's cached ones.
                    assert_eq!(a.render_chunk_index, b.render_chunk_index);
                }
                _ => panic!("cell occupancy differs at ({}, {})", x, y),
            }
        }
    }
}

#[test]
fn pattern_roundtrip_both_layers() {
    let g = sample_grid();
    let pm = Some(sample_path_map());
    let plan = save(&g, &pm, &saver(TilemapSaverMode::MapPattern, 3, false));
    assert_eq!(plan.files.len(), 1);
    assert!(plan.files[0].directory.is_none());
    assert_eq!(plan.files[0].name, "cavern.pattern");
    let pattern = load_pattern("out/cavern.pattern", &plan.files[0].data).unwrap();
    assert!(pattern.label.is_none());
    assert_eq!(pattern.size_x, 10);
    assert_eq!(pattern.size_y, 6);
    assert_eq!(pattern.tiles.len(), 60);
    // Cell-for-cell equality of the tile layer.
    for (i, cell) in pattern.tiles.iter().enumerate() {
        let x = (i % 10) as u32;
        let y = (i / 10) as u32;
        match (g.get(x, y), cell) {
            (None, None) => {}
            (Some(a), Some(b)) => {
                assert_eq!(a.texture_indices, b.texture_indices);
                assert_eq!(a.top_layer, b.top_layer);
                assert_eq!(a.color, b.color);
                assert_eq!(a.anim, b.anim);
            }
            _ => panic!("cell occupancy differs at {}", i),
        }
    }
    // Cell-for-cell equality of the pathfinding layer.
    let pt = pattern.path_tiles.unwrap();
    let expect = sample_path_map();
    assert_eq!(pt.len(), 60);
    for i in 0..60 {
        assert_eq!(pt[i], expect.tiles[i]);
    }
}

#[test]
fn utf8_names_survive_the_byte_format() {
    let mut g = TileGrid::new(1, String::from("h\u{f6}hle \u{2603}"), TileType::Square, 2, 2, 1);
    g.place(1, 1, &TileBuilder::new(0)).unwrap();
    let plan = save(&g, &None, &saver(TilemapSaverMode::Tilemap, 1, false));
    let meta = load_meta("m", &plan.files[0].data).unwrap();
    assert_eq!(meta.name, "h\u{f6}hle \u{2603}");
}

#[test]
fn malformed_bytes_report_encoding_failure() {
    let garbage = vec![9u8, 9, 9];
    let err = load_meta("maps/a/tilemap_meta", &garbage).unwrap_err();
    assert_eq!(err.kind, PersistenceErrorKind::EncodingFailure);
    assert_eq!(err.path, "maps/a/tilemap_meta");
    let err = load_tiles("maps/a/tiles", &garbage).unwrap_err();
    assert_eq!(err.kind, PersistenceErrorKind::EncodingFailure);
    let err = load_pattern("maps/a.pattern", &garbage).unwrap_err();
    assert_eq!(err.kind, PersistenceErrorKind::EncodingFailure);
    // Trailing bytes after a well-formed record are rejected too.
    let g = sample_grid();
    let plan = save(&g, &None, &saver(TilemapSaverMode::Tilemap, 1, false));
    let mut padded = plan.files[0].data.clone();
    padded.push(0);
    let err = load_meta("m", &padded).unwrap_err();
    assert_eq!(err.kind, PersistenceErrorKind::EncodingFailure);
}

#[test]
fn load_tilemap_rejects_inconsistent_inputs() {
    let g = sample_grid();
    let plan = save(&g, &None, &saver(TilemapSaverMode::Tilemap, 1, false));
    let meta = load_meta("m", &plan.files[0].data).unwrap();
    let cells = load_tiles("t", &plan.files[1].data).unwrap();
    // A cell image whose length does not match the extent is rejected.
    let mut short = cells.clone();
    short.pop();
    let err = load_tilemap(1, &meta, &short, "t").unwrap_err();
    assert_eq!(err.kind, PersistenceErrorKind::EncodingFailure);
    // A chunk size of zero is rejected.
    let mut bad_meta = meta.clone();
    bad_meta.render_chunk_size = 0;
    let err = load_tilemap(1, &bad_meta, &cells, "t").unwrap_err();
    assert_eq!(err.kind, PersistenceErrorKind::EncodingFailure);
}

#[test]
fn remove_after_done_destroys_only_on_success() {
    // A successful write with the flag destroys the map.
    let mut g = sample_grid();
    TilemapSaverBuilder::new(String::from("out"))
        .with_layer(TilemapLayer::Color)
        .remove_map_after_done()
        .build(&mut g);
    assert!(complete_save(g, true).is_none());
    // A failed write never destroys it, and the marker is cleared.
    let mut g = sample_grid();
    TilemapSaverBuilder::new(String::from("out"))
        .with_layer(TilemapLayer::Color)
        .remove_map_after_done()
        .build(&mut g);
    let g = complete_save(g, false).unwrap();
    assert!(g.saver.is_none());
    assert!(g.get(0, 0).is_some());
    // Without the flag the map survives a successful write.
    let mut g = sample_grid();
    TilemapSaverBuilder::new(String::from("out"))
        .with_layer(TilemapLayer::Color)
        .build(&mut g);
    let g = complete_save(g, true).unwrap();
    assert!(g.saver.is_none());
}

#[test]
fn pattern_without_color_bit_has_empty_tile_layer() {
    let g = sample_grid();
    let pm = Some(sample_path_map());
    let plan = save(&g, &pm, &saver(TilemapSaverMode::MapPattern, 2, false));
    let pattern = load_pattern("p", &plan.files[0].data).unwrap();
    assert!(pattern.tiles.is_empty());
    assert!(pattern.path_tiles.is_some());
}
