//! Reports in the forms in which they are written.

pub mod cells;
pub mod csv_output;
pub mod html;
pub mod json;
pub mod terminal;
