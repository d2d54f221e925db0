//! Formatting and layout of directory listings: entry names, permission
//! strings, sizes and times as styled cells, arranged as a grid, a flat list
//! or an aligned table.

pub mod args;
pub mod entry;
pub mod error;
pub mod grid;
pub mod listing;
pub mod mode;
pub mod name;
pub mod order;
pub mod paint;
pub mod size;
pub mod style;
pub mod table;
pub mod text;
pub mod time;
