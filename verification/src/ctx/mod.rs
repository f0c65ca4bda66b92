pub mod arc_file;
pub mod arc_info;
pub mod callbacks;
pub mod file_ctx;
pub mod region;
pub mod tables;

pub use arc_file::ArcFile;
pub use arc_info::ArcInfo;
pub use file_ctx::FileCtx;
pub use tables::{ArcTables, FileInformation, SubFile};
