use map_editor::terrain::grid_indices;

#[test]
fn zero_resolution_grid_has_no_triangles() {
    assert!(grid_indices(0).is_empty());
}

#[test]
fn single_cell_grid() {
    // vertices: 0 1 / 2 3
    assert_eq!(grid_indices(1), vec![0, 2, 1, 1, 2, 3]);
}

#[test]
fn two_by_two_grid() {
    let indices = grid_indices(2);
    assert_eq!(indices.len(), 24);
    // cell (z = 1, x = 1): top-left vertex 1 * 3 + 1 = 4
    assert_eq!(&indices[18..24], &[4, 7, 5, 5, 7, 8]);
    // cell (z = 0, x = 1)
    assert_eq!(&indices[6..12], &[1, 4, 2, 2, 4, 5]);
}

#[test]
fn grid_indices_count_and_range() {
    for r in 0..12u32 {
        let indices = grid_indices(r);
        assert_eq!(indices.len(), (6 * r * r) as usize);
        assert!(indices.iter().all(|&i| i < (r + 1) * (r + 1)));
    }
}
