//! A mod file found on disk, and what it changes in the archive tables.
use vstd::prelude::*;
use vstd::utf8::valid_utf8;
use crate::ctx::region::{region_marker_readable, region_name_utf8, region_of, region_of_path};
use crate::ctx::tables::{ArcTables, FileInformation, SubFile, REGIONAL_FLAG};
use crate::files::names::{
    arc_path_from, arc_path_of, at_char_boundary, first_index_of, lemma_first_index_of_at,
    marker_removable,
};

verus! {

/// Length in bytes of the directory prefix that `FileCtx::arc_path` drops from a
/// file's path on disk.
pub const MOD_ROOT_LEN: usize = 70;

/// A mod file: where it lies on disk, the hashes of its archive path and of its
/// extension, its size, and the sub-file entry it replaced.
pub struct FileCtx {
    pub path: Vec<u8>,
    pub hash: u64,
    pub extension: u64,
    pub filesize: u32,
    pub virtual_file: bool,
    pub orig_subfile: SubFile,
}

pub open spec fn zero_subfile() -> SubFile {
    SubFile { offset: 0, compressed_size: 0, decompressed_size: 0, flags: 0 }
}

/// Whether `FileCtx::arc_path` can read `path`: it is longer than the mod root,
/// the root ends on a character boundary, and its regional marker can be cut out.
pub open spec fn arc_path_readable(path: Seq<u8>) -> bool {
    &&& path.len() >= MOD_ROOT_LEN
    &&& at_char_boundary(path, MOD_ROOT_LEN as int)
    &&& marker_removable(path.skip(MOD_ROOT_LEN as int))
}

/// The sub-index that holds the sub-file of a file: the region's own one after
/// the shared one, for a regional file.
pub open spec fn sub_index_of(path: Seq<u8>, info: FileInformation, default_region: u32) -> int {
    if info.is_regional() {
        info.sub_index_index + 1 + region_of(path, default_region)
    } else {
        info.sub_index_index as int
    }
}

/// Whether every table lookup that finds the sub-file of first-table entry `t1`
/// stays in bounds (and the region of a regional file can be read).
pub open spec fn subfile_lookup_ok(
    path: Seq<u8>,
    tables: ArcTables,
    t1: u32,
    default_region: u32,
) -> bool {
    &&& t1 < tables.file_infos@.len()
    &&& {
        let info = tables.file_infos@[t1 as int];
        let j = sub_index_of(path, info, default_region);
        &&& info.sub_index_index < tables.sub_file_indices@.len()
        &&& info.is_regional() ==> {
            &&& region_marker_readable(path)
            &&& region_name_utf8(path)
            &&& j <= u32::MAX
        }
        &&& j < tables.sub_file_indices@.len()
        &&& tables.sub_file_indices@[j] < tables.sub_files@.len()
    }
}

/// The index in the sub-file table of the sub-file of first-table entry `t1`.
pub open spec fn subfile_index_of(
    path: Seq<u8>,
    tables: ArcTables,
    t1: u32,
    default_region: u32,
) -> int {
    tables.sub_file_indices@[sub_index_of(path, tables.file_infos@[t1 as int], default_region)] as int
}

/// A sub-file grown, where needed, to hold `filesize` bytes once decompressed.
pub open spec fn patched(s: SubFile, filesize: u32) -> SubFile {
    if s.decompressed_size < filesize {
        SubFile {
            offset: s.offset,
            compressed_size: s.compressed_size,
            decompressed_size: filesize,
            flags: s.flags,
        }
    } else {
        s
    }
}

/// Patching a sub-file makes it hold at least `filesize` bytes, never shrinks it,
/// leaves its other fields, and patching again changes nothing.
pub proof fn law_patch_fits_and_settles(s: SubFile, filesize: u32)
    ensures
        patched(s, filesize).decompressed_size == if s.decompressed_size < filesize {
            filesize
        } else {
            s.decompressed_size
        },
        patched(s, filesize).offset == s.offset,
        patched(s, filesize).compressed_size == s.compressed_size,
        patched(s, filesize).flags == s.flags,
        patched(patched(s, filesize), filesize) == patched(s, filesize),
{
}

/// Whether the lookups of `FileCtx::get_subfile` stay in bounds for a file at
/// `path` (see `subfile_lookup_ok`); the file name must be UTF-8 where the
/// region is read.
pub fn check_subfile_lookup(path: &[u8], tables: &ArcTables, t1: u32, default_region: u32) -> (r:
    bool)
    requires
        region_name_utf8(path@),
    ensures
        r == subfile_lookup_ok(path@, *tables, t1, default_region),
{
    if t1 as usize >= tables.file_infos.len() {
        return false;
    }
    let info = tables.file_infos[t1 as usize];
    if info.sub_index_index as usize >= tables.sub_file_indices.len() {
        return false;
    }
    let j: u64 = if info.flags & REGIONAL_FLAG == REGIONAL_FLAG {
        if !crate::ctx::region::check_region_marker(path) {
            return false;
        }
        let region = region_of_path(path, default_region);
        info.sub_index_index as u64 + 1 + region as u64
    } else {
        info.sub_index_index as u64
    };
    if j > u32::MAX as u64 || j as usize >= tables.sub_file_indices.len() {
        return false;
    }
    (tables.sub_file_indices[j as usize] as usize) < tables.sub_files.len()
}

impl FileCtx {
    /// An empty file: no path, zero hashes and size, a zeroed sub-file.
    pub fn new() -> (r: Self)
        ensures
            r.path@ == Seq::<u8>::empty(),
            r.hash == 0,
            r.extension == 0,
            r.filesize == 0,
            !r.virtual_file,
            r.orig_subfile == zero_subfile(),
    {
        FileCtx {
            path: Vec::new(),
            hash: 0,
            extension: 0,
            filesize: 0,
            virtual_file: false,
            orig_subfile: SubFile { offset: 0, compressed_size: 0, decompressed_size: 0, flags: 0 },
        }
    }

    /// Where the file lies on disk.
    pub fn path(&self) -> (r: &[u8])
        ensures
            r@ == self.path@,
    {
        self.path.as_slice()
    }

    /// The path the archive knows this file by: its path below the mod root,
    /// rewritten as `arc_path_of` says.
    pub fn arc_path(&self) -> (r: Vec<u8>)
        requires
            valid_utf8(self.path@),
            arc_path_readable(self.path@),
        ensures
            r@ == arc_path_of(self.path@.skip(MOD_ROOT_LEN as int)),
    {
        let mut below: Vec<u8> = Vec::new();
        let mut i: usize = MOD_ROOT_LEN;
        while i < self.path.len()
            invariant
                MOD_ROOT_LEN <= i <= self.path@.len(),
                below@ == self.path@.subrange(MOD_ROOT_LEN as int, i as int),
            decreases self.path@.len() - i,
        {
            below.push(self.path[i]);
            i = i + 1;
        }
        arc_path_from(below.as_slice())
    }

    /// The region this file is meant for; `default_region` is the player's.
    pub fn get_region(&self, default_region: u32) -> (r: u32)
        requires
            region_marker_readable(self.path@),
            region_name_utf8(self.path@),
        ensures
            r == region_of(self.path@, default_region),
    {
        region_of_path(self.path.as_slice(), default_region)
    }

    /// The index in `tables.sub_files` of the sub-file of first-table entry
    /// `t1_index`, for this file's region.
    pub fn get_subfile(&self, tables: &ArcTables, t1_index: u32, default_region: u32) -> (r: usize)
        requires
            subfile_lookup_ok(self.path@, *tables, t1_index, default_region),
        ensures
            r == subfile_index_of(self.path@, *tables, t1_index, default_region),
            r < tables.sub_files@.len(),
            ({
                let info = tables.file_infos@[t1_index as int];
                &&& (info.flags / 0x8000) % 2 == 0 ==> r == tables.sub_file_indices@[
                    info.sub_index_index as int]
                &&& (info.flags / 0x8000) % 2 == 1 ==> r == tables.sub_file_indices@[
                    info.sub_index_index + 1 + region_of(self.path@, default_region)]
            }),
    {
        proof {
            crate::ctx::tables::law_regional_is_bit_15(tables.file_infos@[t1_index as int]);
        }
        let info = tables.file_infos[t1_index as usize];
        let mut sub_index = tables.sub_file_indices[info.sub_index_index as usize];
        if info.flags & REGIONAL_FLAG == REGIONAL_FLAG {
            let region = self.get_region(default_region);
            sub_index = tables.sub_file_indices[(info.sub_index_index + 1 + region) as usize];
        }
        sub_index as usize
    }

    /// Grows the decompressed size of this file's sub-file in `tables` so that
    /// the file fits, keeping the entry as it was in `orig_subfile`. A file whose
    /// hash the first table lacks is left alone.
    pub fn filesize_replacement(&mut self, tables: &mut ArcTables, default_region: u32)
        requires
            old(tables).path_hashes@.len() <= 0x1_0000_0000,
            first_index_of(old(tables).path_hashes@, old(self).hash)
                < old(tables).path_hashes@.len() ==> subfile_lookup_ok(
                old(self).path@,
                *old(tables),
                first_index_of(old(tables).path_hashes@, old(self).hash) as u32,
                default_region,
            ),
        ensures
            final(self).path == old(self).path,
            final(self).hash == old(self).hash,
            final(self).extension == old(self).extension,
            final(self).filesize == old(self).filesize,
            final(self).virtual_file == old(self).virtual_file,
            final(tables).path_hashes == old(tables).path_hashes,
            final(tables).file_infos == old(tables).file_infos,
            final(tables).sub_file_indices == old(tables).sub_file_indices,
            ({
                let t = first_index_of(old(tables).path_hashes@, old(self).hash);
                if t < old(tables).path_hashes@.len() {
                    let k = subfile_index_of(old(self).path@, *old(tables), t as u32, default_region);
                    &&& final(self).orig_subfile == old(tables).sub_files@[k]
                    &&& final(tables).sub_files@ == old(tables).sub_files@.update(
                        k,
                        patched(old(tables).sub_files@[k], old(self).filesize),
                    )
                } else {
                    &&& final(self).orig_subfile == old(self).orig_subfile
                    &&& final(tables).sub_files == old(tables).sub_files
                }
            }),
    {
        let mut i: usize = 0;
        while i < tables.path_hashes.len() && tables.path_hashes[i] != self.hash
            invariant
                i <= tables.path_hashes@.len(),
                forall|j: int| 0 <= j < i ==> tables.path_hashes@[j] != self.hash,
            decreases tables.path_hashes@.len() - i,
        {
            i = i + 1;
        }
        proof {
            lemma_first_index_of_at(tables.path_hashes@, self.hash, i as int);
        }
        if i == tables.path_hashes.len() {
            return;
        }
        let t1_index = i as u32;
        let k = self.get_subfile(tables, t1_index, default_region);
        let old_sub = tables.sub_files[k];
        self.orig_subfile = old_sub;
        if old_sub.decompressed_size < self.filesize {
            tables.sub_files.set(
                k,
                SubFile {
                    offset: old_sub.offset,
                    compressed_size: old_sub.compressed_size,
                    decompressed_size: self.filesize,
                    flags: old_sub.flags,
                },
            );
        }
    }
}

} // verus!
