//! The state behind the interactive game: what a key press or a tick of the
//! clock does to it, and what each cell of the picture shows. Drawing is
//! left to the program around the library.

pub mod app;
pub mod cells;
pub mod keys;
pub mod versus_app;

pub use app::App;
pub use cells::{calculate_cell_size, get_cell_appearance, render_cell, tetromino_color};
pub use keys::{handle_key, Action, Key};
pub use versus_app::VersusApp;
