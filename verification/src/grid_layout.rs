//! Integer layout of the thumbnail grid: how many columns fit, where the row
//! holding a given item starts, and which paths a selection covers.
//!
//! The scroll position is remembered as the first item of the top visible
//! row; restoring it scrolls to the top of the row that item sits in.
use vstd::prelude::*;

use crate::text::string_views;

verus! {

/// Vertical and horizontal gap between grid cells, in pixels.
pub const GRID_ROW_SPACING: i32 = 12;

/// Width the grid is laid out with when a saved position is restored: the
/// measured width, or, before the grid has been measured, the window width
/// less the sidebar, but never under 100.
pub open spec fn layout_width_spec(measured: int, window_width: int) -> int {
    if measured > 0 {
        measured
    } else if window_width - 250 > 100 {
        window_width - 250
    } else {
        100
    }
}

pub fn layout_width(measured: i32, window_width: i32) -> (r: i32)
    requires
        window_width >= i32::MIN + 250,
    ensures
        r == layout_width_spec(measured as int, window_width as int),
        r >= 1,
{
    if measured > 0 {
        measured
    } else {
        let candidate = window_width - 250;
        if candidate > 100 {
            candidate
        } else {
            100
        }
    }
}

/// Number of cells of `cell_width` that fit side by side, at least one.
pub open spec fn columns_spec(grid_width: int, cell_width: int) -> int {
    let c = (grid_width + GRID_ROW_SPACING) / (cell_width + GRID_ROW_SPACING);
    if c > 1 {
        c
    } else {
        1
    }
}

pub fn grid_columns(grid_width: i32, cell_width: i32) -> (r: i32)
    requires
        1 <= grid_width <= i32::MAX - GRID_ROW_SPACING,
        1 <= cell_width <= i32::MAX - GRID_ROW_SPACING,
    ensures
        r == columns_spec(grid_width as int, cell_width as int),
        1 <= r <= grid_width,
{
    let c = (grid_width + GRID_ROW_SPACING) / (cell_width + GRID_ROW_SPACING);
    assert(c <= grid_width) by (nonlinear_arith)
        requires
            c == (grid_width + 12) / (cell_width + 12),
            1 <= grid_width,
            1 <= cell_width,
    ;
    if c > 1 {
        c
    } else {
        1
    }
}

/// Pixel offset of the top of the row that item `index` sits in.
pub open spec fn row_top_spec(index: int, columns: int, cell_width: int) -> int {
    (index / columns) * (cell_width + GRID_ROW_SPACING)
}

/// Scroll offset that brings the row of item `index` to the top.
pub fn anchor_row_top(index: u32, columns: i32, cell_width: i32) -> (r: i32)
    requires
        index <= i32::MAX,
        columns >= 1,
        1 <= cell_width <= i32::MAX - GRID_ROW_SPACING,
        row_top_spec(index as int, columns as int, cell_width as int) <= i32::MAX,
    ensures
        r == row_top_spec(index as int, columns as int, cell_width as int),
        r >= 0,
{
    let row: i64 = (index as i64) / (columns as i64);
    let height: i64 = (cell_width as i64) + (GRID_ROW_SPACING as i64);
    assert(0 <= row <= index) by (nonlinear_arith)
        requires
            row == (index as int) / (columns as int),
            columns >= 1,
            index >= 0,
    ;
    assert(0 <= row * height <= 0x4000_0000_0000_0000) by (nonlinear_arith)
        requires
            0 <= row <= 0x8000_0000,
            0 < height <= 0x8000_0000,
    ;
    let top: i64 = row * height;
    top as i32
}

/// Index of the first item of row `top_row`.
pub fn first_index_of_row(top_row: u32, columns: u32) -> (r: u32)
    requires
        top_row * columns <= u32::MAX,
    ensures
        r == top_row * columns,
{
    top_row * columns
}

/// Remembering the first item of a row and restoring to it scrolls back to
/// the top of that same row.
pub proof fn law_anchor_round_trip(top_row: int, columns: int, cell_width: int)
    requires
        top_row >= 0,
        columns >= 1,
    ensures
        row_top_spec(top_row * columns, columns, cell_width) == top_row * (cell_width
            + GRID_ROW_SPACING),
{
    assert((columns * top_row) / columns == top_row) by {
        vstd::arithmetic::div_mod::lemma_div_multiples_vanish(top_row, columns);
    }
    assert(top_row * columns == columns * top_row) by (nonlinear_arith);
}

/// Paths of the selected positions, in position order; a selected position
/// past the end of `paths` contributes nothing.
pub open spec fn selected_spec(selected: Seq<bool>, paths: Seq<Seq<char>>) -> Seq<Seq<char>>
    decreases selected.len(),
{
    if selected.len() == 0 {
        Seq::empty()
    } else {
        let before = selected_spec(selected.drop_last(), paths);
        let i = selected.len() - 1;
        if selected.last() && i < paths.len() {
            before.push(paths[i])
        } else {
            before
        }
    }
}

pub fn selected_paths(selected: &[bool], paths: &[String]) -> (r: Vec<String>)
    ensures
        string_views(r@) == selected_spec(selected@, string_views(paths@)),
{
    let mut r: Vec<String> = Vec::new();
    let mut i: usize = 0;
    while i < selected.len()
        invariant
            0 <= i <= selected@.len(),
            string_views(r@) == selected_spec(selected@.take(i as int), string_views(paths@)),
        decreases selected@.len() - i,
    {
        assert(selected@.take(i as int + 1).drop_last() =~= selected@.take(i as int));
        if selected[i] && i < paths.len() {
            let p = paths[i].clone();
            r.push(p);
            assert(string_views(r@) =~= selected_spec(
                selected@.take(i as int),
                string_views(paths@),
            ).push(paths@[i as int]@));
        } else {
            assert(string_views(r@) =~= selected_spec(selected@.take(i as int), string_views(paths@)));
        }
        i += 1;
    }
    assert(selected@.take(selected@.len() as int) =~= selected@);
    r
}

} // verus!
