//! Core of a minimal modal terminal text editor: a line-oriented text
//! buffer, a viewport that keeps the cursor inside a bounded visible
//! window, a two-mode (Normal/Insert) input model, and the dispatch
//! logic that applies discrete editing actions to buffer and cursor
//! state. Terminal I/O lives outside this crate; everything here is
//! pure state manipulation with verified contracts.

pub mod application;
pub mod buffer;
pub mod events;
pub mod viewport;
