//! The parts of the game's loaded archive tables that the loader reads and
//! patches, held as plain values.
use vstd::prelude::*;

verus! {

/// One entry of the archive's sub-file table.
#[derive(Debug, Clone, Copy, PartialEq, Eq, Structural)]
pub struct SubFile {
    pub offset: u32,
    pub compressed_size: u32,
    pub decompressed_size: u32,
    pub flags: u32,
}

/// What the archive records of a file found by its first-table index.
#[derive(Debug, Clone, Copy, PartialEq, Eq, Structural)]
pub struct FileInformation {
    pub sub_index_index: u32,
    pub flags: u32,
}

/// Files with this flag have one sub-file per region, after a shared one.
pub const REGIONAL_FLAG: u32 = 0x8000;

/// The loaded archive tables, as far as the loader reads them:
/// `path_hashes[i]` is the path hash of first-table entry `i` and
/// `file_infos[i]` what the archive records of it; `sub_file_indices[j]` is the
/// sub-file that sub-index `j` refers to; `sub_files` is the sub-file table.
pub struct ArcTables {
    pub path_hashes: Vec<u64>,
    pub file_infos: Vec<FileInformation>,
    pub sub_file_indices: Vec<u32>,
    pub sub_files: Vec<SubFile>,
}

impl FileInformation {
    pub open spec fn is_regional(&self) -> bool {
        self.flags & REGIONAL_FLAG == REGIONAL_FLAG
    }
}

/// A file is regional exactly when bit 15 of its flags is set, whatever its
/// other flag bits.
pub proof fn law_regional_is_bit_15(info: FileInformation)
    ensures
        info.is_regional() <==> (info.flags / 0x8000) % 2 == 1,
{
    let x = info.flags;
    assert((x & 0x8000u32 == 0x8000u32) <==> ((x / 0x8000u32) % 2u32 == 1u32)) by (bit_vector);
}

} // verus!
