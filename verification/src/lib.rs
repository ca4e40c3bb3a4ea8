//! A modal, single-line text-editing component: vim-style motions
//! (word-forward/back, visual selection, delete, yank, paste), multi-level
//! undo/redo through buffer snapshots, and viewport scrolling for a
//! fixed-width display window.

pub mod chars;
pub mod snap;
pub mod snaps;
pub mod input;
