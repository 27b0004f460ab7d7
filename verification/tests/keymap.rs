use vesper::keymap::{
    viewer_command, window_command, ViewerCommand, ViewerKey, WindowCommand, WindowKey,
};

#[test]
fn window_help_keys() {
    assert_eq!(window_command(WindowKey::F1, false, false, false), WindowCommand::ShowShortcuts);
    assert_eq!(window_command(WindowKey::Question, true, false, false), WindowCommand::ShowShortcuts);
    assert_eq!(window_command(WindowKey::Slash, true, true, true), WindowCommand::ShowShortcuts);
    assert_eq!(window_command(WindowKey::Question, false, false, false), WindowCommand::Pass);
}

#[test]
fn ctrl_digits_pick_thumbnail_sizes() {
    assert_eq!(window_command(WindowKey::Digit(1), true, false, false), WindowCommand::ThumbnailSize(0));
    assert_eq!(window_command(WindowKey::Digit(5), true, false, false), WindowCommand::ThumbnailSize(4));
    assert_eq!(window_command(WindowKey::Digit(6), true, false, false), WindowCommand::Pass);
    assert_eq!(window_command(WindowKey::Digit(0), true, false, false), WindowCommand::Pass);
    assert_eq!(window_command(WindowKey::Digit(3), false, false, false), WindowCommand::Pass);
}

#[test]
fn slash_focuses_search_only_outside_text_and_viewer() {
    assert_eq!(window_command(WindowKey::Slash, false, false, false), WindowCommand::FocusSearch);
    assert_eq!(window_command(WindowKey::Slash, false, true, false), WindowCommand::Pass);
    assert_eq!(window_command(WindowKey::Slash, false, false, true), WindowCommand::Pass);
    assert_eq!(window_command(WindowKey::Escape, false, true, false), WindowCommand::ViewerEscape);
    assert_eq!(window_command(WindowKey::Escape, false, false, false), WindowCommand::Pass);
}

#[test]
fn viewer_keys_act_only_while_open() {
    assert_eq!(viewer_command(ViewerKey::Right, false, false), ViewerCommand::Pass);
    assert_eq!(viewer_command(ViewerKey::Escape, true, false), ViewerCommand::Escape);
    assert_eq!(viewer_command(ViewerKey::F, true, false), ViewerCommand::ToggleFullscreen);
    assert_eq!(viewer_command(ViewerKey::I, true, true), ViewerCommand::ToggleInfoPanel);
    assert_eq!(viewer_command(ViewerKey::Space, true, true), ViewerCommand::TogglePlayback);
    assert_eq!(viewer_command(ViewerKey::Space, true, false), ViewerCommand::Consume);
    assert_eq!(viewer_command(ViewerKey::Left, true, false), ViewerCommand::Previous);
    assert_eq!(viewer_command(ViewerKey::Right, true, false), ViewerCommand::Next);
    assert_eq!(viewer_command(ViewerKey::Other, true, false), ViewerCommand::Pass);
}
