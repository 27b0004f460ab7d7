use vesper::display::cell_width_for_zoom;
use vesper::grid_layout::{
    anchor_row_top, first_index_of_row, grid_columns, layout_width, selected_paths,
};

#[test]
fn layout_width_prefers_measured_width() {
    assert_eq!(layout_width(900, 1280), 900);
    assert_eq!(layout_width(0, 1280), 1030);
    assert_eq!(layout_width(-5, 300), 100);
}

#[test]
fn columns_fit_cells_and_spacing() {
    // 150px cells with 12px spacing: (1000 + 12) / 162 = 6.
    assert_eq!(grid_columns(1000, 150), 6);
    // Narrower than one cell still gives one column.
    assert_eq!(grid_columns(50, 150), 1);
    assert_eq!(grid_columns(1, cell_width_for_zoom(4)), 1);
}

#[test]
fn row_top_of_item_in_third_row() {
    // 6 columns, item 14 sits in row 2; rows are 162px apart.
    assert_eq!(anchor_row_top(14, 6, 150), 324);
    assert_eq!(anchor_row_top(0, 6, 150), 0);
}

#[test]
fn remembered_row_restores_to_same_row() {
    let columns = grid_columns(1000, 280);
    let first = first_index_of_row(7, columns as u32);
    assert_eq!(first, 7 * columns as u32);
    assert_eq!(anchor_row_top(first, columns, 280), 7 * (280 + 12));
}

#[test]
fn selected_paths_follow_position_order() {
    let paths = vec!["/a.jpg".to_string(), "/b.jpg".to_string(), "/c.jpg".to_string()];
    let picked = selected_paths(&[true, false, true, true], &paths);
    assert_eq!(picked, vec!["/a.jpg".to_string(), "/c.jpg".to_string()]);
    assert!(selected_paths(&[false, false], &paths).is_empty());
}
