pub mod cell;
pub mod laws;
pub mod model;
pub mod universe;
