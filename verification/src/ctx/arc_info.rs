use vstd::prelude::*;

verus! {

/// What other plugins are told of a file the loader serves.
#[derive(Debug, Clone, Copy, PartialEq, Eq, Structural)]
pub struct ArcInfo {
    pub hash: u64,
    pub filesize: u32,
    pub extension: u64,
    pub orig_decomp_size: u32,
}

} // verus!
