//! Callbacks that other plugins install on files, by file hash or by extension,
//! and the ordered lists the loader keeps of them.
use vstd::prelude::*;
use vstd::std_specs::hash::group_hash_axioms;
use vstd::seq_lib::to_multiset_insert;
use std::collections::HashMap;

verus! {

broadcast use group_hash_axioms;

/// What a callback is installed on.
#[derive(Debug, Clone, Copy, PartialEq, Eq, Structural, Hash)]
pub enum CallbackType {
    File(u64),
    /// Unused
    Directory(u64),
    Extension(u64),
}

/// A callback, told apart by the address of its function (`u64` here).
/// - A listener is told that a file was looked up (only on file callbacks).
/// - An editor edits the content of a file, the game's or the user's; the
///   size it announces goes unused.
/// - A replacer provides a file by itself.
#[derive(Debug, Clone, Copy, PartialEq, Eq, Structural, Hash)]
pub enum ArcCallback {
    Listener(u64),
    Editor(u32, u64),
    Replacer(u64),
}

impl CallbackType {
    /// The hash the callback is installed on.
    pub open spec fn id(self) -> u64 {
        match self {
            CallbackType::File(h) => h,
            CallbackType::Directory(h) => h,
            CallbackType::Extension(h) => h,
        }
    }
}

impl ArcCallback {
    pub open spec fn variant_rank(self) -> int {
        match self {
            ArcCallback::Listener(_) => 0,
            ArcCallback::Editor(_, _) => 1,
            ArcCallback::Replacer(_) => 2,
        }
    }

    /// `self` comes after `other` in the order lists are kept in: by variant
    /// (listener, editor, replacer), then by function address. An editor's
    /// announced size plays no part.
    pub open spec fn greater(self, other: ArcCallback) -> bool {
        match (self, other) {
            (ArcCallback::Listener(a), ArcCallback::Listener(b)) => a > b,
            (ArcCallback::Editor(_, a), ArcCallback::Editor(_, b)) => a > b,
            (ArcCallback::Replacer(a), ArcCallback::Replacer(b)) => a > b,
            _ => self.variant_rank() > other.variant_rank(),
        }
    }

    /// Whether `self` comes after `other` in the order lists are kept in.
    pub fn is_greater(&self, other: &ArcCallback) -> (r: bool)
        ensures
            r == self.greater(*other),
    {
        match (self, other) {
            (ArcCallback::Listener(a), ArcCallback::Listener(b)) => *a > *b,
            (ArcCallback::Editor(_, a), ArcCallback::Editor(_, b)) => *a > *b,
            (ArcCallback::Replacer(a), ArcCallback::Replacer(b)) => *a > *b,
            (ArcCallback::Replacer(_), _) => true,
            (ArcCallback::Editor(_, _), ArcCallback::Listener(_)) => true,
            _ => false,
        }
    }
}

/// The list is in descending order: replacers first, then editors, then
/// listeners.
pub open spec fn sorted_desc(s: Seq<ArcCallback>) -> bool {
    forall|i: int, j: int| 0 <= i < j < s.len() ==> !s[j].greater(s[i])
}

/// Where `cb` goes in `s`: before the first callback it comes after, after all
/// others (so after those it ties with).
pub open spec fn insert_pos(s: Seq<ArcCallback>, cb: ArcCallback) -> int
    decreases s.len(),
{
    if s.len() == 0 {
        0
    } else if cb.greater(s[0]) {
        0
    } else {
        1 + insert_pos(s.drop_first(), cb)
    }
}

proof fn lemma_insert_pos_at(s: Seq<ArcCallback>, cb: ArcCallback, i: int)
    requires
        0 <= i <= s.len(),
        forall|k: int| 0 <= k < i ==> !cb.greater(#[trigger] s[k]),
        i < s.len() ==> cb.greater(s[i]),
    ensures
        insert_pos(s, cb) == i,
    decreases s.len(),
{
    if s.len() > 0 && i > 0 {
        assert(!cb.greater(s[0]));
        assert forall|k: int| 0 <= k < i - 1 implies !cb.greater(#[trigger] s.drop_first()[k]) by {
            assert(s.drop_first()[k] == s[k + 1]);
        }
        if i - 1 < s.drop_first().len() {
            assert(s.drop_first()[i - 1] == s[i]);
        }
        lemma_insert_pos_at(s.drop_first(), cb, i - 1);
    }
}

/// An editor's announced size goes unused: installing an editor puts it at the
/// same place whatever its size, so the lists differ only in that size.
pub proof fn law_install_ignores_editor_size(s: Seq<ArcCallback>, n: u32, m: u32, f: u64)
    ensures
        insert_pos(s, ArcCallback::Editor(n, f)) == insert_pos(s, ArcCallback::Editor(m, f)),
        s.insert(insert_pos(s, ArcCallback::Editor(n, f)), ArcCallback::Editor(n, f)) == s.insert(
            insert_pos(s, ArcCallback::Editor(m, f)),
            ArcCallback::Editor(m, f),
        ).update(insert_pos(s, ArcCallback::Editor(n, f)), ArcCallback::Editor(n, f)),
    decreases s.len(),
{
    if s.len() > 0 {
        law_install_ignores_editor_size(s.drop_first(), n, m, f);
    }
    let p = insert_pos(s, ArcCallback::Editor(n, f));
    assert(0 <= p <= s.len()) by {
        lemma_insert_pos_bounds(s, ArcCallback::Editor(n, f));
    }
    assert(s.insert(p, ArcCallback::Editor(n, f)) =~= s.insert(p, ArcCallback::Editor(m, f)).update(
        p,
        ArcCallback::Editor(n, f),
    ));
}

proof fn lemma_insert_pos_bounds(s: Seq<ArcCallback>, cb: ArcCallback)
    ensures
        0 <= insert_pos(s, cb) <= s.len(),
    decreases s.len(),
{
    if s.len() > 0 {
        lemma_insert_pos_bounds(s.drop_first(), cb);
    }
}

/// In a list in descending order, replacers come before editors, and editors
/// before listeners.
pub proof fn law_replacers_before_editors(s: Seq<ArcCallback>, i: int, j: int)
    requires
        sorted_desc(s),
        0 <= i < j < s.len(),
    ensures
        s[j] matches ArcCallback::Replacer(_) ==> s[i] matches ArcCallback::Replacer(_),
        s[j] matches ArcCallback::Editor(_, _) ==> !(s[i] matches ArcCallback::Listener(_)),
{
    assert(!s[j].greater(s[i]));
}

/// The callbacks of one kind of target, by the target's hash.
pub type CallbackLists = HashMap<u64, Vec<ArcCallback>>;

/// `map` with `cb` added to the list of `id` (a new list where there was none),
/// the list kept in descending order.
fn insert_sorted(map: &mut CallbackLists, id: u64, cb: ArcCallback)
    requires
        old(map)@.contains_key(id) ==> sorted_desc(old(map)@[id]@),
    ensures
        final(map)@.dom() == old(map)@.dom().insert(id),
        forall|k: u64| k != id && old(map)@.contains_key(k) ==> final(map)@[k] == old(map)@[k],
        sorted_desc(final(map)@[id]@),
        ({
            let before = if old(map)@.contains_key(id) {
                old(map)@[id]@
            } else {
                Seq::<ArcCallback>::empty()
            };
            final(map)@[id]@ == before.insert(insert_pos(before, cb), cb)
        }),
        final(map)@[id]@.to_multiset() == (if old(map)@.contains_key(id) {
            old(map)@[id]@
        } else {
            Seq::<ArcCallback>::empty()
        }).to_multiset().insert(cb),
{
    match map.remove(&id) {
        None => {
            let mut list: Vec<ArcCallback> = Vec::new();
            list.push(cb);
            proof {
                lemma_insert_pos_at(Seq::<ArcCallback>::empty(), cb, 0);
                to_multiset_insert(Seq::<ArcCallback>::empty(), 0, cb);
                assert(Seq::<ArcCallback>::empty().insert(0, cb) == list@);
            }
            map.insert(id, list);
        },
        Some(mut list) => {
            let ghost before = list@;
            let mut i: usize = 0;
            while i < list.len() && !cb.is_greater(&list[i])
                invariant
                    list@ == before,
                    i <= before.len(),
                    forall|k: int| 0 <= k < i ==> !cb.greater(#[trigger] before[k]),
                decreases before.len() - i,
            {
                i = i + 1;
            }
            proof {
                lemma_insert_pos_at(before, cb, i as int);
            }
            list.insert(i, cb);
            proof {
                to_multiset_insert(before, i as int, cb);
                let after = list@;
                assert forall|a: int, b: int| 0 <= a < b < after.len() implies !after[b].greater(
                    after[a],
                ) by {
                    if b < i {
                        assert(after[a] == before[a] && after[b] == before[b]);
                    } else if b == i {
                        assert(after[a] == before[a]);
                    } else if a == i {
                        assert(after[b] == before[b - 1]);
                        assert(i < before.len());
                        assert(cb.greater(before[i as int]));
                        assert(!before[b - 1].greater(before[i as int]) || b - 1 == i);
                    } else if a < i {
                        assert(after[a] == before[a] && after[b] == before[b - 1]);
                    } else {
                        assert(after[a] == before[a - 1] && after[b] == before[b - 1]);
                    }
                }
            }
            map.insert(id, list);
        },
    }
}

/// All installed callbacks.
pub struct Callbacks {
    file: CallbackLists,
    directory: CallbackLists,
    extension: CallbackLists,
}

impl Callbacks {
    pub closed spec fn lists_of(&self, t: CallbackType) -> Map<u64, Vec<ArcCallback>> {
        match t {
            CallbackType::File(_) => self.file@,
            CallbackType::Directory(_) => self.directory@,
            CallbackType::Extension(_) => self.extension@,
        }
    }

    /// Whether a list is kept for `t`.
    pub closed spec fn has_list(&self, t: CallbackType) -> bool {
        self.lists_of(t).contains_key(t.id())
    }

    /// The callbacks installed on `t`, in the order they run.
    pub closed spec fn list(&self, t: CallbackType) -> Seq<ArcCallback> {
        if self.has_list(t) {
            self.lists_of(t)[t.id()]@
        } else {
            Seq::empty()
        }
    }

    /// Every list is in descending order.
    pub closed spec fn wf(&self) -> bool {
        forall|t: CallbackType| self.has_list(t) ==> #[trigger] sorted_desc(self.list(t))
    }

    /// No callbacks.
    pub fn new() -> (r: Self)
        ensures
            r.wf(),
            forall|t: CallbackType| !r.has_list(t),
            forall|t: CallbackType| r.list(t) == Seq::<ArcCallback>::empty(),
    {
        Callbacks { file: HashMap::new(), directory: HashMap::new(), extension: HashMap::new() }
    }

    /// The callbacks installed on `t`, if any list is kept for it.
    pub fn get(&self, t: CallbackType) -> (r: Option<&Vec<ArcCallback>>)
        ensures
            match r {
                Some(v) => self.has_list(t) && v@ == self.list(t),
                None => !self.has_list(t) && self.list(t) == Seq::<ArcCallback>::empty(),
            },
    {
        match t {
            CallbackType::File(h) => self.file.get(&h),
            CallbackType::Directory(h) => self.directory.get(&h),
            CallbackType::Extension(h) => self.extension.get(&h),
        }
    }

    /// Installs `cb` on `cb_type`: it goes before the first callback it comes
    /// after (see `insert_pos`). The list stays in descending order, so that
    /// replacers run before editors; it holds what it held and `cb`.
    pub fn install(&mut self, cb_type: CallbackType, cb: ArcCallback)
        requires
            old(self).wf(),
        ensures
            final(self).wf(),
            final(self).has_list(cb_type),
            forall|t: CallbackType| t != cb_type ==> final(self).has_list(t) == old(self).has_list(t),
            forall|t: CallbackType| t != cb_type ==> final(self).list(t) == old(self).list(t),
            sorted_desc(final(self).list(cb_type)),
            final(self).list(cb_type) == old(self).list(cb_type).insert(
                insert_pos(old(self).list(cb_type), cb),
                cb,
            ),
            final(self).list(cb_type).to_multiset() == old(self).list(cb_type).to_multiset().insert(
                cb,
            ),
    {
        proof {
            if old(self).has_list(cb_type) {
                assert(sorted_desc(old(self).list(cb_type)));
            }
        }
        match cb_type {
            CallbackType::File(h) => insert_sorted(&mut self.file, h, cb),
            CallbackType::Directory(h) => insert_sorted(&mut self.directory, h, cb),
            CallbackType::Extension(h) => insert_sorted(&mut self.extension, h, cb),
        }
        proof {
            assert forall|t: CallbackType| t != cb_type implies final(self).has_list(t) == old(
                self,
            ).has_list(t) && final(self).list(t) == old(self).list(t) by {
                if t.id() == cb_type.id() {
                    assert(t != cb_type);
                }
            }
            assert forall|t: CallbackType| final(self).has_list(t) implies #[trigger] sorted_desc(
                final(self).list(t),
            ) by {
                if t != cb_type {
                    assert(old(self).has_list(t));
                    assert(sorted_desc(old(self).list(t)));
                }
            }
        }
    }
}

} // verus!
