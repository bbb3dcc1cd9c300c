use entitiles::grid::{TileGrid, TilemapError};
use entitiles::tile::{AnimatedTile, TileBuilder, TileFlip, TileType};

fn small_grid() -> TileGrid {
    TileGrid::new(7, String::from("arena"), TileType::Square, 10, 10, 4)
}

#[test]
fn place_computes_chunk_and_stores_record() {
    let mut g = small_grid();
    let b = TileBuilder::new(42);
    let id = g.place(9, 0, &b).unwrap();
    let t = g.get(9, 0).unwrap();
    assert_eq!(t.render_chunk_index, 2);
    assert_eq!(t.index_x, 9);
    assert_eq!(t.index_y, 0);
    assert_eq!(t.tilemap_id, 7);
    assert_eq!(t.texture_indices, [42, -1, -1, -1]);
    let by_id = g.get_by_id(id).unwrap();
    assert_eq!(by_id.texture_indices, [42, -1, -1, -1]);
}

#[test]
fn place_out_of_bounds_fails() {
    let mut g = small_grid();
    let b = TileBuilder::new(1);
    assert_eq!(g.place(10, 0, &b), Err(TilemapError::OutOfBounds));
    assert_eq!(g.place(0, 10, &b), Err(TilemapError::OutOfBounds));
}

#[test]
fn occupied_slot_rejected_and_replacement_gets_fresh_id() {
    let mut g = small_grid();
    let b = TileBuilder::new(1);
    let first = g.place(3, 3, &b).unwrap();
    // No silent overwrite: the occupied cell rejects a second placement.
    assert_eq!(g.place(3, 3, &b), Err(TilemapError::SlotOccupied));
    // Removing and placing again succeeds and yields a fresh identifier.
    let removed = g.remove(3, 3).unwrap();
    assert_eq!(removed.texture_indices, [1, -1, -1, -1]);
    let second = g.place(3, 3, &b).unwrap();
    assert_ne!(first, second);
    // The stale handle no longer reaches the new tile.
    assert!(g.get_by_id(first).is_none());
    assert!(g.get_by_id(second).is_some());
}

#[test]
fn remove_empty_or_out_of_bounds_returns_none() {
    let mut g = small_grid();
    assert!(g.remove(5, 5).is_none());
    assert!(g.remove(99, 0).is_none());
}

#[test]
fn set_layer_rejected_while_animation_owns_it() {
    let mut g = small_grid();
    let anim = AnimatedTile {
        layer: 1,
        sequence_start: 4,
        sequence_length: 8,
        fps_bits: 0x41200000,
        is_loop: true,
    };
    let b = TileBuilder::new(5).with_animation(anim);
    let id = g.place(2, 2, &b).unwrap();
    // The animation owns layer 1: a static index cannot be written there.
    assert_eq!(g.set_layer(id, 1, 9), Err(TilemapError::AnimationOwnsLayer));
    // A non-animated, in-range layer always succeeds and is visible on the
    // next read.
    assert_eq!(g.set_layer(id, 2, 9), Ok(()));
    let t = g.get_by_id(id).unwrap();
    assert_eq!(t.texture_indices, [5, -1, 9, -1]);
    assert_eq!(t.top_layer, 2);
    // An out-of-range layer is rejected.
    assert_eq!(g.set_layer(id, 4, 9), Err(TilemapError::LayerOutOfRange));
}

#[test]
fn set_layer_succeeds_without_animation() {
    let mut g = small_grid();
    let id = g.place(0, 0, &TileBuilder::new(3)).unwrap();
    assert_eq!(g.set_layer(id, 1, 17), Ok(()));
    let t = g.get_by_id(id).unwrap();
    assert_eq!(t.texture_indices, [3, 17, -1, -1]);
    assert_eq!(t.top_layer, 1);
}

#[test]
fn tiles_in_chunk_keeps_insertion_order() {
    let mut g = small_grid();
    // (0,0), (3,3), (1,2) all lie in chunk 0 of a width-10, chunk-4 grid;
    // (9,0) lies in chunk 2.
    g.place(3, 3, &TileBuilder::new(1)).unwrap();
    g.place(0, 0, &TileBuilder::new(2)).unwrap();
    g.place(9, 0, &TileBuilder::new(3)).unwrap();
    g.place(1, 2, &TileBuilder::new(4)).unwrap();
    let chunk0 = g.tiles_in_chunk(0);
    let indices: Vec<i32> = chunk0.iter().map(|t| t.texture_indices[0]).collect();
    assert_eq!(indices, vec![1, 2, 4]);
    let chunk2 = g.tiles_in_chunk(2);
    assert_eq!(chunk2.len(), 1);
    assert_eq!(chunk2[0].texture_indices[0], 3);
    // Removal takes the tile out of its chunk group.
    g.remove(0, 0).unwrap();
    let chunk0 = g.tiles_in_chunk(0);
    let indices: Vec<i32> = chunk0.iter().map(|t| t.texture_indices[0]).collect();
    assert_eq!(indices, vec![1, 4]);
}

#[test]
fn builder_with_layer_respects_animation_and_capacity() {
    let anim = AnimatedTile {
        layer: 0,
        sequence_start: 0,
        sequence_length: 2,
        fps_bits: 0,
        is_loop: false,
    };
    let b = TileBuilder::new(5).with_animation(anim).with_layer(0, 9);
    // Layer 0 is animation-owned: the static index is untouched.
    assert_eq!(b.texture_indices, [5, -1, -1, -1]);
    // An out-of-range layer is a no-op.
    let b = b.with_layer(4, 9);
    assert_eq!(b.texture_indices, [5, -1, -1, -1]);
    // A free layer is set and raises the topmost populated layer.
    let b = b.with_layer(2, 9);
    assert_eq!(b.texture_indices, [5, -1, 9, -1]);
    assert_eq!(b.top_layer, 2);
}

#[test]
fn tile_flip_bits() {
    assert_eq!(TileFlip::Horizontal.bits(), 0b01);
    assert_eq!(TileFlip::Vertical.bits(), 0b10);
    assert_eq!(TileFlip::Both.bits(), 0b11);
}
