pub mod names;
pub mod visit;
