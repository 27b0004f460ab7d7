//! Vesper: the verified core of a keyboard-first local media gallery.
//!
//! Everything here is plain computation over strings, integers and small
//! collections: media classification, folder-derived tags, ignore-rule
//! evaluation, thumbnail bookkeeping, backend coordination state and the
//! decisions the backend and the UI take on top of them.

pub mod text;
pub mod path;
pub mod media;
pub mod models;
pub mod scan;
pub mod concurrency;
pub mod events;
pub mod state;
pub mod ignore_rules;
pub mod logging;
pub mod display;
pub mod roots;
pub mod live_update;
pub mod maintenance;
pub mod viewer_nav;
pub mod thumbnail;
pub mod walker;
pub mod backend_loop;
pub mod tag_rows;
pub mod grid_order;
pub mod filter_state;
pub mod media_query;
pub mod search_keys;
pub mod migrations;
pub mod grid_layout;
pub mod selection;
pub mod keymap;
