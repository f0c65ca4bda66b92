//! The loader's state: the mod files it serves, by hash, and the callbacks
//! other plugins installed; and what it answers those plugins.
use vstd::prelude::*;
use vstd::std_specs::hash::group_hash_axioms;
use vstd::utf8::valid_utf8;
use std::collections::HashMap;
use crate::arc::ArcPath;
use crate::ctx::{ArcFile, ArcInfo, FileCtx};
use crate::ctx::callbacks::{ArcCallback, CallbackType, Callbacks};
use crate::api::file_load::{FileLoad, Phase};

pub mod file_load;

verus! {

broadcast use group_hash_axioms;

/// `m` with the entries of `s` stored by hash, one after the other.
pub open spec fn insert_all(m: Map<u64, FileCtx>, s: Seq<FileCtx>) -> Map<u64, FileCtx>
    decreases s.len(),
{
    if s.len() == 0 {
        m
    } else {
        insert_all(m, s.drop_last()).insert(s.last().hash, s.last())
    }
}

/// The index of the last entry of `s` with hash `h`, or -1.
pub open spec fn last_with_hash(s: Seq<FileCtx>, h: u64) -> int
    decreases s.len(),
{
    if s.len() == 0 {
        -1
    } else if s.last().hash == h {
        s.len() - 1
    } else {
        last_with_hash(s.drop_last(), h)
    }
}

/// The addresses of the listeners in `s`, in order.
pub open spec fn listeners_of(s: Seq<ArcCallback>) -> Seq<u64>
    decreases s.len(),
{
    if s.len() == 0 {
        Seq::empty()
    } else {
        let rest = listeners_of(s.drop_last());
        match s.last() {
            ArcCallback::Listener(f) => rest.push(f),
            _ => rest,
        }
    }
}

/// Adding files serves each by its hash, the last of several with one hash
/// winning; a hash none of them has keeps what it had.
pub proof fn law_add_entries_last_wins(m: Map<u64, FileCtx>, s: Seq<FileCtx>, h: u64)
    ensures
        -1 <= last_with_hash(s, h) < s.len(),
        last_with_hash(s, h) >= 0 ==> {
            &&& s[last_with_hash(s, h)].hash == h
            &&& forall|j: int| last_with_hash(s, h) < j < s.len() ==> s[j].hash != h
            &&& insert_all(m, s).contains_key(h)
            &&& insert_all(m, s)[h] == s[last_with_hash(s, h)]
        },
        last_with_hash(s, h) < 0 ==> {
            &&& forall|j: int| 0 <= j < s.len() ==> s[j].hash != h
            &&& insert_all(m, s).contains_key(h) == m.contains_key(h)
            &&& m.contains_key(h) ==> insert_all(m, s)[h] == m[h]
        },
    decreases s.len(),
{
    if s.len() > 0 {
        law_add_entries_last_wins(m, s.drop_last(), h);
        assert forall|j: int| last_with_hash(s, h) < j < s.len() - 1 implies s[j].hash != h by {
            assert(s[j] == s.drop_last()[j]);
        }
        if last_with_hash(s, h) >= 0 && last_with_hash(s, h) < s.len() - 1 {
            assert(s[last_with_hash(s, h)] == s.drop_last()[last_with_hash(s, h)]);
        }
        if last_with_hash(s, h) < 0 {
            assert forall|j: int| 0 <= j < s.len() implies s[j].hash != h by {
                if j < s.len() - 1 {
                    assert(s[j] == s.drop_last()[j]);
                }
            }
        }
    }
}

/// The file found for a hash is the file with that hash: what other plugins
/// are told of it names the hash they asked for.
pub proof fn law_lookup_answers_the_hash(state: ArcState, h: u64)
    requires
        state.wf(),
        state.files().contains_key(h),
    ensures
        state.files()[h].hash == h,
        info_of(state.files()[h]).hash == h,
{
}

/// A single callback gives its address where it is a listener, and nothing
/// where it is an editor or a replacer.
pub proof fn law_listeners_of_one(c: ArcCallback)
    ensures
        c matches ArcCallback::Listener(f) ==> listeners_of(seq![c]) == seq![f],
        !(c matches ArcCallback::Listener(_)) ==> listeners_of(seq![c]) == Seq::<u64>::empty(),
{
    assert(seq![c].drop_last() == Seq::<ArcCallback>::empty());
    assert(listeners_of(seq![c].drop_last()) == Seq::<u64>::empty());
    assert(seq![c].last() == c);
    if let ArcCallback::Listener(f) = c {
        assert(listeners_of(seq![c]) == Seq::<u64>::empty().push(f));
        assert(Seq::<u64>::empty().push(f) == seq![f]);
    }
}

/// The listeners of two lists one after the other are those of the first, then
/// those of the second: with `law_listeners_of_one`, the listeners of a list are
/// its listener addresses in order, and no other address.
pub proof fn law_listeners_of_concat(a: Seq<ArcCallback>, b: Seq<ArcCallback>)
    ensures
        listeners_of(a + b) == listeners_of(a) + listeners_of(b),
    decreases b.len(),
{
    if b.len() == 0 {
        assert(a + b == a);
        assert(listeners_of(b) == Seq::<u64>::empty());
    } else {
        law_listeners_of_concat(a, b.drop_last());
        assert((a + b).drop_last() == a + b.drop_last());
        assert((a + b).last() == b.last());
    }
}

/// Whoever `has_hash` tells of a lookup is a listener: every address it gives is
/// that of a listener installed on the file, and no editor or replacer is told.
pub proof fn law_has_hash_tells_only_listeners(s: Seq<ArcCallback>, k: int)
    requires
        0 <= k < listeners_of(s).len(),
    ensures
        exists|i: int| 0 <= i < s.len() && s[i] == ArcCallback::Listener(#[trigger] listeners_of(s)[k]),
    decreases s.len(),
{
    let rest = listeners_of(s.drop_last());
    if k < rest.len() {
        law_has_hash_tells_only_listeners(s.drop_last(), k);
        let i = choose|i: int| 0 <= i < s.drop_last().len() && s.drop_last()[i] == ArcCallback::Listener(rest[k]);
        assert(s[i] == s.drop_last()[i]);
        match s.last() {
            ArcCallback::Listener(f) => assert(listeners_of(s)[k] == rest[k]),
            _ => {},
        }
    } else {
        assert(s.last() matches ArcCallback::Listener(_));
        assert(s[s.len() - 1] == s.last());
    }
}

/// What other plugins are told of a file is the file's own hash, size,
/// extension hash, and the decompressed size its sub-file had before patching.
pub proof fn law_info_is_the_files_own(ctx: FileCtx)
    ensures
        info_of(ctx).hash == ctx.hash,
        info_of(ctx).filesize == ctx.filesize,
        info_of(ctx).extension == ctx.extension,
        info_of(ctx).orig_decomp_size == ctx.orig_subfile.decompressed_size,
{
}

/// What other plugins are told of a file.
pub open spec fn info_of(ctx: FileCtx) -> ArcInfo {
    ArcInfo {
        hash: ctx.hash,
        filesize: ctx.filesize,
        extension: ctx.extension,
        orig_decomp_size: ctx.orig_subfile.decompressed_size,
    }
}

/// The mod files, by hash, and the installed callbacks.
pub struct ArcState {
    files: HashMap<u64, FileCtx>,
    callbacks: Callbacks,
}

impl ArcState {
    /// The mod files served, by hash.
    pub closed spec fn files(&self) -> Map<u64, FileCtx> {
        self.files@
    }

    /// The callbacks installed on `t`, in the order they run.
    pub closed spec fn callbacks_on(&self, t: CallbackType) -> Seq<ArcCallback> {
        self.callbacks.list(t)
    }

    /// Every file is stored under its own hash, and every callback list is in
    /// descending order.
    pub closed spec fn wf(&self) -> bool {
        &&& self.callbacks.wf()
        &&& forall|h: u64| #[trigger] self.files@.contains_key(h) ==> self.files@[h].hash == h
    }

    /// No files, no callbacks.
    pub fn new() -> (r: Self)
        ensures
            r.wf(),
            r.files() == Map::<u64, FileCtx>::empty(),
            forall|t: CallbackType| r.callbacks_on(t) == Seq::<ArcCallback>::empty(),
    {
        ArcState { files: HashMap::new(), callbacks: Callbacks::new() }
    }

    /// Serves `entries`, each by its hash; a later entry with the same hash as an
    /// earlier one (or as a file already served) takes its place.
    pub fn add_entries(&mut self, entries: Vec<FileCtx>)
        requires
            old(self).wf(),
        ensures
            final(self).wf(),
            final(self).files() == insert_all(old(self).files(), entries@),
            forall|t: CallbackType| final(self).callbacks_on(t) == old(self).callbacks_on(t),
    {
        let ghost start = self.files@;
        let ghost all = entries@;
        for entry in it: entries.into_iter()
            invariant
                it.seq() == all,
                self.files@ == insert_all(start, all.take(it.index() as int)),
                self.wf(),
                self.callbacks == old(self).callbacks,
        {
            assert(all.take(it.index() + 1).drop_last() == all.take(it.index() as int));
            self.files.insert(entry.hash, entry);
        }
        assert(all.take(all.len() as int) == all);
    }

    /// The file served for `hash`.
    pub fn get(&self, hash: u64) -> (r: Option<&FileCtx>)
        ensures
            match r {
                None => !self.files().contains_key(hash),
                Some(ctx) => self.files().contains_key(hash) && *ctx == self.files()[hash],
            },
    {
        self.files.get(&hash)
    }

    /// Whether `hash` is served. Where it is, the addresses of the listeners on
    /// the file, in order, which are to be told of the lookup.
    pub fn has_hash(&self, hash: u64) -> (r: Option<Vec<u64>>)
        ensures
            match r {
                None => !self.files().contains_key(hash),
                Some(l) => {
                    &&& self.files().contains_key(hash)
                    &&& l@ == listeners_of(self.callbacks_on(CallbackType::File(hash)))
                    &&& forall|k: int|
                        #![trigger l@[k]]
                        0 <= k < l@.len() ==> exists|i: int|
                            0 <= i < self.callbacks_on(CallbackType::File(hash)).len()
                                && #[trigger] self.callbacks_on(CallbackType::File(hash))[i]
                                == ArcCallback::Listener(l@[k])
                },
            },
    {
        if !self.files.contains_key(&hash) {
            return None;
        }
        let mut out: Vec<u64> = Vec::new();
        match self.callbacks.get(CallbackType::File(hash)) {
            None => {},
            Some(list) => {
                let mut i: usize = 0;
                while i < list.len()
                    invariant
                        i <= list@.len(),
                        out@ == listeners_of(list@.take(i as int)),
                        list@ == self.callbacks_on(CallbackType::File(hash)),
                        forall|k: int|
                            #![trigger out@[k]]
                            0 <= k < out@.len() ==> exists|j: int|
                                0 <= j < self.callbacks_on(CallbackType::File(hash)).len()
                                    && #[trigger] self.callbacks_on(CallbackType::File(hash))[j]
                                    == ArcCallback::Listener(out@[k]),
                    decreases list@.len() - i,
                {
                    assert(list@.take(i + 1).drop_last() == list@.take(i as int));
                    match list[i] {
                        ArcCallback::Listener(f) => {
                            assert(self.callbacks_on(CallbackType::File(hash))[i as int]
                                == ArcCallback::Listener(f));
                            out.push(f);
                        },
                        _ => {},
                    }
                    i = i + 1;
                }
                assert(list@.take(list@.len() as int) == list@);
            },
        }
        Some(out)
    }

    /// What other plugins are told of the file served for `hash`.
    pub fn get_arc_file(&self, hash: u64) -> (r: Option<ArcInfo>)
        ensures
            match r {
                None => !self.files().contains_key(hash),
                Some(info) => {
                    &&& self.files().contains_key(hash)
                    &&& info == info_of(self.files()[hash])
                    &&& info.hash == self.files()[hash].hash
                    &&& info.filesize == self.files()[hash].filesize
                    &&& info.extension == self.files()[hash].extension
                    &&& info.orig_decomp_size == self.files()[hash].orig_subfile.decompressed_size
                },
            },
    {
        match self.files.get(&hash) {
            None => None,
            Some(ctx) => Some(
                ArcInfo {
                    hash: ctx.hash,
                    filesize: ctx.filesize,
                    extension: ctx.extension,
                    orig_decomp_size: ctx.orig_subfile.decompressed_size,
                },
            ),
        }
    }

    /// Where the file served for `hash` lies on disk, as an `ArcPath`.
    pub fn get_arc_file_path(&self, hash: u64) -> (r: Option<ArcPath>)
        requires
            self.files().contains_key(hash) ==> valid_utf8(self.files()[hash].path@),
        ensures
            match r {
                None => !self.files().contains_key(hash),
                Some(p) => {
                    &&& self.files().contains_key(hash)
                    &&& p.wf()
                    &&& p.path matches Some(b) && b@ == self.files()[hash].path@
                    &&& p.path_len == self.files()[hash].path@.len() % 256
                },
            },
    {
        match self.files.get(&hash) {
            None => None,
            Some(ctx) => Some(ArcPath::new(ctx.path.as_slice())),
        }
    }

    /// How the file served for `hash` is to be loaded: its callbacks, then those
    /// of its extension, starting with no buffer.
    pub fn get_file(&self, hash: u64) -> (r: Option<FileLoad>)
        ensures
            match r {
                None => !self.files().contains_key(hash),
                Some(load) => {
                    let ctx = self.files()[hash];
                    &&& self.files().contains_key(hash)
                    &&& load.wf()
                    &&& load.info == info_of(ctx)
                    &&& load.info.hash == ctx.hash
                    &&& load.info.filesize == ctx.filesize
                    &&& load.info.extension == ctx.extension
                    &&& load.info.orig_decomp_size == ctx.orig_subfile.decompressed_size
                    &&& load.callbacks@ == self.callbacks_on(CallbackType::File(hash))
                        + self.callbacks_on(CallbackType::Extension(ctx.extension))
                    &&& load.next == 0
                    &&& load.file == (ArcFile { file: 0, len: 0 })
                    &&& load.phase == Phase::Ready
                },
            },
    {
        let info = match self.get_arc_file(hash) {
            None => return None,
            Some(info) => info,
        };
        let mut list: Vec<ArcCallback> = Vec::new();
        let ghost file_list = self.callbacks.list(CallbackType::File(hash));
        match self.callbacks.get(CallbackType::File(hash)) {
            None => {},
            Some(l) => append_all(&mut list, l),
        }
        assert(list@ == file_list);
        match self.callbacks.get(CallbackType::Extension(info.extension)) {
            None => {},
            Some(l) => append_all(&mut list, l),
        }
        Some(FileLoad::new(info, list))
    }

    /// Installs `arc_cb` on `cb_type`, before the first callback it comes after;
    /// its list stays in descending order, so that replacers run before editors.
    pub fn install_callback(&mut self, cb_type: CallbackType, arc_cb: ArcCallback)
        requires
            old(self).wf(),
        ensures
            final(self).wf(),
            final(self).files() == old(self).files(),
            forall|t: CallbackType| t != cb_type ==> final(self).callbacks_on(t) == old(
                self,
            ).callbacks_on(t),
            crate::ctx::callbacks::sorted_desc(final(self).callbacks_on(cb_type)),
            final(self).callbacks_on(cb_type) == old(self).callbacks_on(cb_type).insert(
                crate::ctx::callbacks::insert_pos(old(self).callbacks_on(cb_type), arc_cb),
                arc_cb,
            ),
            final(self).callbacks_on(cb_type).to_multiset() == old(self).callbacks_on(
                cb_type,
            ).to_multiset().insert(arc_cb),
    {
        self.callbacks.install(cb_type, arc_cb);
    }
}

/// Appends `from` to `to`.
fn append_all(to: &mut Vec<ArcCallback>, from: &Vec<ArcCallback>)
    ensures
        final(to)@ == old(to)@ + from@,
{
    let mut i: usize = 0;
    while i < from.len()
        invariant
            i <= from@.len(),
            to@ == old(to)@ + from@.take(i as int),
        decreases from@.len() - i,
    {
        to.push(from[i]);
        assert(from@.take(i + 1) == from@.take(i as int).push(from@[i as int]));
        i = i + 1;
    }
    assert(from@.take(from@.len() as int) == from@);
}

} // verus!
