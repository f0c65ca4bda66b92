//! What the loader makes of each entry found while walking a mod directory.
use vstd::prelude::*;
use crate::ctx::region::{region_marker_readable, region_name_utf8, region_of};
use crate::ctx::file_ctx::{subfile_index_of, subfile_lookup_ok, patched};
use crate::ctx::tables::ArcTables;
use crate::ctx::file_ctx::MOD_ROOT_LEN;
use crate::ctx::FileCtx;
use crate::files::names::{
    arc_path_from, arc_path_of, extension, extension_of, first_index_of, marker_removable,
};

verus! {

/// Names starting with a period are skipped.
pub open spec fn starts_with_dot(name: Seq<u8>) -> bool {
    name.len() > 0 && name[0] == '.' as u8
}

/// Whether a file or directory name starts with a period.
pub fn is_hidden(name: &[u8]) -> (r: bool)
    ensures
        r == starts_with_dot(name@),
        r == (name@.len() > 0 && name@[0] == '.' as u8),
{
    name.len() > 0 && name[0] == '.' as u8
}

/// The directory of a mod kept the Ultimate Mod Manager way: the mod directory,
/// a separator, and the entry's path.
pub fn umm_mod_dir(root: &[u8], entry: &[u8]) -> (r: Vec<u8>)
    ensures
        r@ == root@ + seq!['/' as u8] + entry@,
{
    let mut out: Vec<u8> = Vec::new();
    let mut i: usize = 0;
    while i < root.len()
        invariant
            i <= root@.len(),
            out@ == root@.take(i as int),
        decreases root@.len() - i,
    {
        out.push(root[i]);
        i = i + 1;
    }
    out.push('/' as u8);
    let mut j: usize = 0;
    while j < entry.len()
        invariant
            j <= entry@.len(),
            root@.take(root@.len() as int) == root@,
            out@ == root@ + seq!['/' as u8] + entry@.take(j as int),
        decreases entry@.len() - j,
    {
        out.push(entry[j]);
        assert(entry@.take(j + 1) == entry@.take(j as int).push(entry@[j as int]));
        j = j + 1;
    }
    assert(entry@.take(entry@.len() as int) == entry@);
    out
}

/// What the archive calls a file found in a mod directory, and its extension.
pub struct DiscoveredPath {
    pub arc_path: Vec<u8>,
    pub extension: Vec<u8>,
}

/// Whether the path below the mod root can be rewritten: its regional marker
/// can be cut out, and the result still has an extension.
pub open spec fn relative_path_readable(rel: Seq<u8>) -> bool {
    marker_removable(rel) && extension_of(arc_path_of(rel)) is Some
}

/// What the loader makes of a directory entry: `name` is its name, `path` its
/// path, `relative` its path below the mod directory (`None` where it does not
/// lie below it). Directories, hidden files and files without an extension are
/// skipped; for the others, the archive path and its extension.
pub open spec fn discovered_of(
    name: Seq<u8>,
    path: Seq<u8>,
    is_dir: bool,
    relative: Option<Seq<u8>>,
) -> Option<(Seq<u8>, Seq<u8>)> {
    if is_dir || starts_with_dot(name) || extension_of(path) is None {
        None
    } else {
        match relative {
            None => None,
            Some(rel) => {
                let a = arc_path_of(rel);
                Some((a, extension_of(a).unwrap()))
            },
        }
    }
}

pub open spec fn bytes_of(o: Option<&[u8]>) -> Option<Seq<u8>> {
    match o {
        Some(s) => Some(s@),
        None => None,
    }
}

/// A file found under a mod directory whose path is `MOD_ROOT_LEN - 1` bytes
/// long is known to the archive by the same path to `FileCtx::arc_path` (the
/// archive path of its path past the root) as to the walk that hashed it.
pub proof fn law_arc_path_matches_discovery(
    root: Seq<u8>,
    rel: Seq<u8>,
    name: Seq<u8>,
    path: Seq<u8>,
)
    requires
        root.len() + 1 == MOD_ROOT_LEN,
        path == root + seq!['/' as u8] + rel,
        discovered_of(name, path, false, Some(rel)) is Some,
    ensures
        path.len() >= MOD_ROOT_LEN,
        path.skip(MOD_ROOT_LEN as int) == rel,
        discovered_of(name, path, false, Some(rel)) matches Some((a, _)) && a == arc_path_of(
            path.skip(MOD_ROOT_LEN as int),
        ),
{
    assert(path.skip(MOD_ROOT_LEN as int) =~= rel);
}

/// Every entry whose name starts with a period is skipped, whatever follows
/// the period, and so is every directory.
pub proof fn law_dot_names_and_directories_are_skipped(
    name: Seq<u8>,
    path: Seq<u8>,
    is_dir: bool,
    relative: Option<Seq<u8>>,
)
    requires
        is_dir || (name.len() > 0 && name[0] == '.' as u8),
    ensures
        discovered_of(name, path, is_dir, relative) is None,
{
}

/// Whether `discover_entry` can read the entry: see `relative_path_readable`.
pub fn check_relative_path(rel: &[u8]) -> (r: bool)
    ensures
        r == relative_path_readable(rel@),
{
    let plus = crate::files::names::find(rel, '+' as u8);
    let dot = crate::files::names::find(rel, '.' as u8);
    proof {
        crate::files::names::lemma_first_index_of(rel@, '+' as u8);
    }
    let removable = plus == rel.len() || (plus <= dot && dot < rel.len());
    if !removable {
        return false;
    }
    let a = arc_path_from(rel);
    extension(a.as_slice()).is_some()
}

/// What the loader makes of a directory entry (see `discovered_of`).
pub fn discover_entry(name: &[u8], path: &[u8], is_dir: bool, relative: Option<&[u8]>) -> (r:
    Option<DiscoveredPath>)
    requires
        !is_dir && !starts_with_dot(name@) && extension_of(path@) is Some ==> match relative {
            Some(rel) => relative_path_readable(rel@),
            None => true,
        },
    ensures
        match r {
            Some(d) => discovered_of(name@, path@, is_dir, bytes_of(relative)) == Some(
                (d.arc_path@, d.extension@),
            ),
            None => discovered_of(name@, path@, is_dir, bytes_of(relative)) is None,
        },
        name@.len() > 0 && name@[0] == '.' as u8 ==> r is None,
        is_dir ==> r is None,
{
    if is_dir {
        return None;
    }
    if is_hidden(name) {
        return None;
    }
    if extension(path).is_none() {
        return None;
    }
    match relative {
        None => None,
        Some(rel) => {
            let a = arc_path_from(rel);
            match extension(a.as_slice()) {
                Some(e) => Some(DiscoveredPath { arc_path: a, extension: e }),
                None => None,
            }
        },
    }
}

/// Where the first table lists `hash` (its length where it does not).
pub fn find_hash(hashes: &[u64], hash: u64) -> (r: usize)
    ensures
        r == first_index_of(hashes@, hash),
{
    let mut i: usize = 0;
    while i < hashes.len() && hashes[i] != hash
        invariant
            i <= hashes@.len(),
            forall|j: int| 0 <= j < i ==> hashes@[j] != hash,
        decreases hashes@.len() - i,
    {
        i = i + 1;
    }
    proof {
        crate::files::names::lemma_first_index_of_at(hashes@, hash, i as int);
    }
    i
}

/// Whether `discovered_file` can take the file at `path` with hash `hash`: its
/// region can be read and, where it is kept, its sub-file can be found in
/// `tables`. The file name must be UTF-8 where the region is read.
pub fn check_discovered_file(path: &[u8], hash: u64, tables: &ArcTables, default_region: u32) -> (r:
    bool)
    requires
        region_name_utf8(path@),
        tables.path_hashes@.len() <= 0x1_0000_0000,
    ensures
        r == (region_marker_readable(path@) && (region_of(path@, default_region) == default_region
            && first_index_of(tables.path_hashes@, hash) < tables.path_hashes@.len()
            ==> subfile_lookup_ok(
            path@,
            *tables,
            first_index_of(tables.path_hashes@, hash) as u32,
            default_region,
        ))),
{
    if !crate::ctx::region::check_region_marker(path) {
        return false;
    }
    if crate::ctx::region::region_of_path(path, default_region) != default_region {
        return true;
    }
    let t = find_hash(tables.path_hashes.as_slice(), hash);
    if t == tables.path_hashes.len() {
        return true;
    }
    proof {
        crate::files::names::lemma_first_index_of(tables.path_hashes@, hash);
    }
    assert(t < 0x1_0000_0000);
    let t1 = t as u32;
    assert(t1 == t);
    crate::ctx::file_ctx::check_subfile_lookup(path, tables, t1, default_region)
}

/// The mod file at `path`, whose archive path and extension hash to `hash` and
/// `extension_hash` and which is `len` bytes long (the size kept is `len`
/// cut to 32 bits). A file meant for another region than `default_region`
/// is skipped; otherwise the file's sub-file in `tables` is grown to fit it.
pub fn discovered_file(
    path: Vec<u8>,
    hash: u64,
    extension_hash: u64,
    len: u64,
    default_region: u32,
    tables: &mut ArcTables,
) -> (r: Option<FileCtx>)
    requires
        region_marker_readable(path@),
        region_name_utf8(path@),
        old(tables).path_hashes@.len() <= 0x1_0000_0000,
        region_of(path@, default_region) == default_region && first_index_of(
            old(tables).path_hashes@,
            hash,
        ) < old(tables).path_hashes@.len() ==> subfile_lookup_ok(
            path@,
            *old(tables),
            first_index_of(old(tables).path_hashes@, hash) as u32,
            default_region,
        ),
    ensures
        final(tables).path_hashes == old(tables).path_hashes,
        final(tables).file_infos == old(tables).file_infos,
        final(tables).sub_file_indices == old(tables).sub_file_indices,
        region_of(path@, default_region) != default_region ==> r is None && final(tables).sub_files
            == old(tables).sub_files,
        region_of(path@, default_region) == default_region ==> (r matches Some(ctx) && {
            let t = first_index_of(old(tables).path_hashes@, hash);
            &&& ctx.path@ == path@
            &&& ctx.hash == hash
            &&& ctx.extension == extension_hash
            &&& ctx.filesize == len as u32
            &&& !ctx.virtual_file
            &&& if t < old(tables).path_hashes@.len() {
                let k = subfile_index_of(path@, *old(tables), t as u32, default_region);
                &&& ctx.orig_subfile == old(tables).sub_files@[k]
                &&& final(tables).sub_files@ == old(tables).sub_files@.update(
                    k,
                    patched(old(tables).sub_files@[k], len as u32),
                )
            } else {
                &&& ctx.orig_subfile == crate::ctx::file_ctx::zero_subfile()
                &&& final(tables).sub_files == old(tables).sub_files
            }
        }),
{
    let mut ctx = FileCtx::new();
    ctx.path = path;
    ctx.hash = hash;
    ctx.extension = extension_hash;
    ctx.filesize = len as u32;
    if ctx.get_region(default_region) != default_region {
        return None;
    }
    ctx.filesize_replacement(tables, default_region);
    Some(ctx)
}

} // verus!
