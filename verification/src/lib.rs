//! A terminal file-dialog core: a popup state machine for browsing a
//! directory tree, filtering file names, and collecting a selection.
//!
//! The library holds the dialog's logic only: building a sorted listing
//! from raw directory entries, cursor and selection bookkeeping, the
//! open/closed state machine, key dispatch, and panel placement. The host
//! performs the actual directory reads and rendering and feeds plain
//! values in and out.

pub mod dialog;
pub mod dispatch;
pub mod listing;
pub mod order;
pub mod paths;
pub mod pattern;
pub mod rect;
