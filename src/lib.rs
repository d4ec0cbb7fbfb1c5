//! Engine of a chord-driven terminal front end for version control tools:
//! key-chord dispatch, per-kind result caching with at most one worker per
//! kind, mode state machines, the scroll, select and line-editing widgets,
//! and the frame renderer, all verified with Verus.
pub mod action;
pub mod ansi;
pub mod chord;
pub mod help;
pub mod input;
pub mod key;
pub mod mode;
pub mod output;
pub mod plan;
pub mod read_line;
pub mod select_menu;
pub mod session;
pub mod target;
pub mod text;
pub mod ui;
