//! A keyboard-driven list editor: two ordered lists of text items, the
//! primitives that move a cursor and items through them, and the layout engine
//! that places their widgets on a character grid.

pub mod keys;
pub mod list_view;
pub mod panels;
pub mod status;
pub mod storage;
pub mod text;
pub mod ui;
