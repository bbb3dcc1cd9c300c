use entitiles::grid::chunk_id;

#[test]
fn chunk_id_is_stable_and_matches_recomputation() {
    // Same inputs always give the same id, and the id matches a direct
    // recomputation of the formula.
    for x in 0..10u32 {
        for y in 0..8u32 {
            let a = chunk_id(x, y, 10, 8, 4);
            let b = chunk_id(x, y, 10, 8, 4);
            assert_eq!(a, b);
            let stride = if 10 % 4 == 0 { 10 / 4 } else { 10 / 4 + 1 };
            let expect = (y / 4) * stride + x / 4;
            assert_eq!(a, expect as usize);
        }
    }
}

#[test]
fn chunk_row_stride_rounds_up_on_non_multiple_width() {
    // Width 10, chunk size 4: the stride is ceil(10/4) = 3, not 10/4 = 2,
    // and the tile at (9, 0) lands in chunk 2.
    assert_eq!(chunk_id(9, 0, 10, 10, 4), 2);
    // Second chunk row starts at stride 3, not 2.
    assert_eq!(chunk_id(0, 4, 10, 10, 4), 3);
    assert_eq!(chunk_id(9, 4, 10, 10, 4), 5);
}

#[test]
fn chunk_id_exact_division_keeps_tight_stride() {
    // Width 8, chunk size 4: stride is exactly 2.
    assert_eq!(chunk_id(7, 0, 8, 8, 4), 1);
    assert_eq!(chunk_id(0, 4, 8, 8, 4), 2);
}

#[test]
fn chunk_id_single_cell_grid() {
    assert_eq!(chunk_id(0, 0, 1, 1, 1), 0);
}
