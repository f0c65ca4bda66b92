use vstd::prelude::*;

verus! {

/// A file buffer as other plugins see it: the address of its bytes (0 for
/// none yet) and its length.
#[derive(Debug, Clone, Copy, PartialEq, Eq, Structural)]
pub struct ArcFile {
    pub file: u64,
    pub len: u32,
}

impl ArcFile {
    /// No buffer yet.
    pub fn empty() -> (r: Self)
        ensures
            r.file == 0,
            r.len == 0,
    {
        ArcFile { file: 0, len: 0 }
    }
}

} // verus!
