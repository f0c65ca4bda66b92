pub mod arc_path;

pub use arc_path::ArcPath;
