//! The interactive explorer: its state, the text of its lists and the
//! names of its themes.
pub mod app;
pub mod cells;
pub mod format;
pub mod keys;
pub mod theme;
