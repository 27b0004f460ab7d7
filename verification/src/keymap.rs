//! The keyboard map of the main window and of the media viewer.
//!
//! The toolkit's key events are reduced to the few keys that mean something
//! here; everything else is `Other` and passes through.

use vstd::prelude::*;

verus! {

/// A key pressed in the main window.
#[derive(Debug, Clone, Copy, PartialEq, Eq)]
pub enum WindowKey {
    F1,
    Question,
    Slash,
    Escape,
    /// A digit key on the main row, `0` to `9`.
    Digit(u8),
    Other,
}

/// What a key does in the main window.
#[derive(Debug, Clone, Copy, PartialEq, Eq)]
pub enum WindowCommand {
    /// Open the keyboard shortcuts help.
    ShowShortcuts,
    /// Switch to the thumbnail size with this index (0 to 4).
    ThumbnailSize(usize),
    /// Move the focus to the search entry.
    FocusSearch,
    /// Hand Escape to the open viewer.
    ViewerEscape,
    /// Let the key through.
    Pass,
}

pub open spec fn window_command_spec(
    key: WindowKey,
    ctrl: bool,
    viewer_open: bool,
    text_focused: bool,
) -> WindowCommand {
    if key == WindowKey::F1 || ((key == WindowKey::Question || key == WindowKey::Slash) && ctrl) {
        WindowCommand::ShowShortcuts
    } else if ctrl && (key matches WindowKey::Digit(d) && 1 <= d <= 5) {
        WindowCommand::ThumbnailSize((key->Digit_0 - 1) as usize)
    } else if key == WindowKey::Slash && !viewer_open && !text_focused {
        WindowCommand::FocusSearch
    } else if key == WindowKey::Escape && viewer_open {
        WindowCommand::ViewerEscape
    } else {
        WindowCommand::Pass
    }
}

/// F1 or Ctrl+? opens the shortcuts, Ctrl+1 to Ctrl+5 pick a thumbnail size,
/// `/` focuses search unless the viewer is open or a text field has the
/// focus, and Escape goes to an open viewer.
pub fn window_command(key: WindowKey, ctrl: bool, viewer_open: bool, text_focused: bool) -> (r:
    WindowCommand)
    ensures
        r == window_command_spec(key, ctrl, viewer_open, text_focused),
{
    let is_help = match key {
        WindowKey::F1 => true,
        WindowKey::Question | WindowKey::Slash => ctrl,
        _ => false,
    };
    if is_help {
        return WindowCommand::ShowShortcuts;
    }
    if ctrl {
        if let WindowKey::Digit(d) = key {
            if 1 <= d && d <= 5 {
                return WindowCommand::ThumbnailSize((d - 1) as usize);
            }
        }
    }
    match key {
        WindowKey::Slash => if !viewer_open && !text_focused {
            WindowCommand::FocusSearch
        } else {
            WindowCommand::Pass
        },
        WindowKey::Escape => if viewer_open {
            WindowCommand::ViewerEscape
        } else {
            WindowCommand::Pass
        },
        _ => WindowCommand::Pass,
    }
}

/// A key pressed while the viewer has the focus.
#[derive(Debug, Clone, Copy, PartialEq, Eq)]
pub enum ViewerKey {
    Escape,
    /// `f` or `F`.
    F,
    /// `i` or `I`.
    I,
    Space,
    Left,
    Right,
    Other,
}

/// What a key does in the viewer.
#[derive(Debug, Clone, Copy, PartialEq, Eq)]
pub enum ViewerCommand {
    /// Leave fullscreen or close, as [`crate::viewer_nav::escape_action`] says.
    Escape,
    ToggleFullscreen,
    ToggleInfoPanel,
    TogglePlayback,
    /// Swallow the key without acting (Space on an image).
    Consume,
    Previous,
    Next,
    /// Let the key through.
    Pass,
}

pub open spec fn viewer_command_spec(key: ViewerKey, viewer_open: bool, showing_video: bool) -> ViewerCommand {
    if !viewer_open {
        ViewerCommand::Pass
    } else {
        match key {
            ViewerKey::Escape => ViewerCommand::Escape,
            ViewerKey::F => ViewerCommand::ToggleFullscreen,
            ViewerKey::I => ViewerCommand::ToggleInfoPanel,
            ViewerKey::Space => if showing_video {
                ViewerCommand::TogglePlayback
            } else {
                ViewerCommand::Consume
            },
            ViewerKey::Left => ViewerCommand::Previous,
            ViewerKey::Right => ViewerCommand::Next,
            ViewerKey::Other => ViewerCommand::Pass,
        }
    }
}

/// The viewer's keys: Escape, `f` for fullscreen, `i` for the info panel,
/// Space to play or pause a video, and the arrows to step. A closed viewer
/// lets every key through.
pub fn viewer_command(key: ViewerKey, viewer_open: bool, showing_video: bool) -> (r: ViewerCommand)
    ensures
        r == viewer_command_spec(key, viewer_open, showing_video),
{
    if !viewer_open {
        return ViewerCommand::Pass;
    }
    match key {
        ViewerKey::Escape => ViewerCommand::Escape,
        ViewerKey::F => ViewerCommand::ToggleFullscreen,
        ViewerKey::I => ViewerCommand::ToggleInfoPanel,
        ViewerKey::Space => if showing_video {
            ViewerCommand::TogglePlayback
        } else {
            ViewerCommand::Consume
        },
        ViewerKey::Left => ViewerCommand::Previous,
        ViewerKey::Right => ViewerCommand::Next,
        ViewerKey::Other => ViewerCommand::Pass,
    }
}

} // verus!
