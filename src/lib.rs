pub mod cell;
pub mod faces;
pub mod grid;
pub mod ids;
pub mod validate;
