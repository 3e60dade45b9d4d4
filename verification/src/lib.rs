//! A terminal spreadsheet engine: a sparse grid of typed cells, a scrollable
//! viewport over it, a modal cell editor and a linear undo history.
pub mod app;
pub mod cell;
pub mod cell_order;
pub mod command;
pub mod delimited;
pub mod edit;
pub mod event;
pub mod file;
pub mod grid;
pub mod history;
pub mod input_buffer;
pub mod layout;
pub mod round_trip;
pub mod screen;
pub mod state;
pub mod text;
pub mod utils;
pub mod viewport;
pub mod widgets;
