use vesper::selection::{
    click_action, grid_escape, selection_bar_visible, ClickAction, GridEscape, GridSelection,
};

fn selected(s: &GridSelection) -> Vec<u32> {
    (0..s.len()).filter(|&p| s.is_selected(p)).collect()
}

#[test]
fn toggling_adds_to_and_removes_from_history() {
    let mut s = GridSelection::new(6);
    assert_eq!(s.count(), 0);
    assert_eq!(s.anchor_position(), None);
    s.toggle(2);
    s.toggle(4);
    assert_eq!(s.history_positions(), vec![2, 4]);
    assert_eq!(s.anchor_position(), Some(4));
    s.toggle(4);
    assert_eq!(s.history_positions(), vec![2]);
    assert_eq!(s.anchor_position(), Some(2));
    assert_eq!(selected(&s), vec![2]);
    s.toggle(2);
    assert_eq!(s.count(), 0);
    assert_eq!(s.anchor_position(), None);
}

#[test]
fn toggling_twice_restores_the_selection() {
    let mut s = GridSelection::new(4);
    s.toggle(1);
    let before = selected(&s);
    s.toggle(3);
    s.toggle(3);
    assert_eq!(selected(&s), before);
    s.toggle(1);
    s.toggle(1);
    assert_eq!(selected(&s), before);
}

#[test]
fn shift_space_selects_range_from_anchor() {
    let mut s = GridSelection::new(8);
    s.toggle(5);
    s.toggle(6);
    // Anchor is 6; extending to 2 selects 2..=6.
    s.extend_to(2);
    assert_eq!(selected(&s), vec![2, 3, 4, 5, 6]);
    assert_eq!(s.history_positions(), vec![2, 3, 4, 5, 6]);
    assert_eq!(s.anchor_position(), Some(2));
}

#[test]
fn shift_click_moves_target_to_end_of_history() {
    let mut s = GridSelection::new(8);
    s.toggle(0);
    s.toggle(6);
    // Anchor 6, click on 4: range 4..=6, then 4 moves last.
    s.shift_click(4);
    assert_eq!(selected(&s), vec![0, 4, 5, 6]);
    assert_eq!(s.history_positions(), vec![0, 5, 6, 4]);
    assert_eq!(s.anchor_position(), Some(4));
}

#[test]
fn range_without_anchor_starts_at_target() {
    let mut s = GridSelection::new(3);
    s.extend_to(1);
    assert_eq!(selected(&s), vec![1]);
    assert_eq!(s.anchor_position(), Some(1));
}

#[test]
fn select_all_then_clear() {
    let mut s = GridSelection::new(3);
    s.select_all();
    assert_eq!(selected(&s), vec![0, 1, 2]);
    assert_eq!(s.history_positions(), vec![0, 1, 2]);
    assert_eq!(s.anchor_position(), Some(2));
    s.clear();
    assert_eq!(s.count(), 0);
    assert_eq!(s.anchor_position(), None);
    let mut empty = GridSelection::new(0);
    empty.select_all();
    assert_eq!(empty.anchor_position(), None);
}

#[test]
fn click_and_escape_decisions() {
    assert_eq!(click_action(true, false, false), ClickAction::Toggle);
    assert_eq!(click_action(false, true, true), ClickAction::Toggle);
    assert_eq!(click_action(false, true, false), ClickAction::Extend);
    assert_eq!(click_action(false, false, false), ClickAction::Open);
    assert_eq!(grid_escape(true, 3), GridEscape::Viewer);
    assert_eq!(grid_escape(false, 3), GridEscape::ClearSelection);
    assert_eq!(grid_escape(false, 0), GridEscape::Pass);
    assert!(selection_bar_visible(2, false));
    assert!(selection_bar_visible(0, true));
    assert!(!selection_bar_visible(0, false));
}
