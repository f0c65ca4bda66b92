//! Serving one file: its callbacks run in order, replacers first providing the
//! file, editors then editing it; where none provides it, the user's file on
//! disk is loaded. The caller performs each action and reports its outcome.
use vstd::prelude::*;
use crate::ctx::{ArcFile, ArcInfo};
use crate::ctx::callbacks::ArcCallback;

verus! {

/// What the caller is to do next.
#[derive(Debug, Clone, Copy, PartialEq, Eq, Structural)]
pub enum FileAction {
    /// Call the replacer at this address with the file's hash and the buffer.
    CallReplacer(u64),
    /// Read the user's file from disk into a new buffer.
    LoadUserFile,
    /// Call the editor at this address with the file's info and the buffer.
    CallEditor(u64),
    /// Hand the buffer (`FileLoad::file`, never null) over: the file is served.
    Finish,
}

/// What came of the last action.
#[derive(Debug, Clone, Copy, PartialEq, Eq, Structural)]
pub enum FileEvent {
    /// The replacer returned whether it created the file, and left the buffer so.
    ReplacerReturned(bool, ArcFile),
    /// The user's file was read into the buffer at this (non-zero) address.
    UserFileLoaded(u64),
    /// The editor returned, and left the buffer so.
    EditorReturned(ArcFile),
}

/// Where a file load stands.
#[derive(Debug, Clone, Copy, PartialEq, Eq, Structural)]
pub enum Phase {
    /// About to look at the callbacks from `next` on.
    Ready,
    /// Waiting for a replacer.
    AwaitReplacer,
    /// Waiting for the user's file, which stands in for what a replacer did not create.
    LoadAfterReplacer,
    /// Waiting for the user's file, which the editor at this address will then edit.
    LoadBeforeEditor(u64),
    /// Waiting for an editor.
    AwaitEditor,
    /// Waiting for the user's file, which is handed over as no callback left a buffer.
    LoadBeforeFinish,
    /// The file was handed over.
    Done,
}

/// One file being served.
pub struct FileLoad {
    /// The file's info, as editors are given it.
    pub info: ArcInfo,
    /// The file's callbacks, then those of its extension.
    pub callbacks: Vec<ArcCallback>,
    /// How many of `callbacks` have been looked at.
    pub next: usize,
    /// The buffer, as the last callback left it.
    pub file: ArcFile,
    pub phase: Phase,
}

pub open spec fn is_listener(c: ArcCallback) -> bool {
    c matches ArcCallback::Listener(_)
}

/// The first callback at or after `i` that is not a listener (`s.len()` if none).
pub open spec fn next_active(s: Seq<ArcCallback>, i: int) -> int
    decreases s.len() - i,
{
    if i >= s.len() {
        s.len() as int
    } else if !is_listener(s[i]) {
        i
    } else {
        next_active(s, i + 1)
    }
}

proof fn lemma_next_active(s: Seq<ArcCallback>, i: int)
    requires
        0 <= i <= s.len(),
    ensures
        i <= next_active(s, i) <= s.len(),
        next_active(s, i) < s.len() ==> !is_listener(s[next_active(s, i)]),
        forall|j: int| i <= j < next_active(s, i) ==> is_listener(s[j]),
    decreases s.len() - i,
{
    if i < s.len() && is_listener(s[i]) {
        lemma_next_active(s, i + 1);
    }
}

/// The event is what the phase waits for.
pub open spec fn expects(phase: Phase, event: FileEvent) -> bool {
    match (phase, event) {
        (Phase::AwaitReplacer, FileEvent::ReplacerReturned(_, _)) => true,
        (Phase::LoadAfterReplacer, FileEvent::UserFileLoaded(b)) => b != 0,
        (Phase::LoadBeforeEditor(_), FileEvent::UserFileLoaded(b)) => b != 0,
        (Phase::AwaitEditor, FileEvent::EditorReturned(_)) => true,
        (Phase::LoadBeforeFinish, FileEvent::UserFileLoaded(b)) => b != 0,
        _ => false,
    }
}

/// Each step runs the next callback that is not a listener, each once and in
/// list order, skipping listeners; once none is left, the buffer is handed over,
/// after loading the user's file where no callback left one.
pub proof fn law_callbacks_run_once_in_order(s: FileLoad, r: FileLoad, action: FileAction)
    requires
        s.wf(),
        s.advanced(r, action),
    ensures
        r.wf(),
        action != FileAction::Finish && r.phase != Phase::LoadBeforeFinish ==> {
            &&& s.next < r.next
            &&& !is_listener(r.callbacks@[r.next - 1])
            &&& forall|j: int| s.next <= j < r.next - 1 ==> is_listener(#[trigger] r.callbacks@[j])
        },
        action matches FileAction::CallReplacer(f) ==> r.callbacks@[r.next - 1]
            == ArcCallback::Replacer(f),
        action matches FileAction::CallEditor(f) ==> r.callbacks@[r.next - 1] matches ArcCallback::Editor(
            _,
            g,
        ) && g == f,
        (action == FileAction::Finish || r.phase == Phase::LoadBeforeFinish) ==> forall|j: int|
            s.next <= j < s.callbacks@.len() ==> is_listener(#[trigger] s.callbacks@[j]),
        action == FileAction::Finish ==> r.phase == Phase::Done && r.file.file != 0,
{
    lemma_next_active(s.callbacks@, s.next as int);
}

/// A callback with an editor's announced size set aside.
pub open spec fn sizeless(c: ArcCallback) -> ArcCallback {
    match c {
        ArcCallback::Editor(_, f) => ArcCallback::Editor(0, f),
        _ => c,
    }
}

/// The two lists hold the same callbacks, save for editors' announced sizes.
pub open spec fn same_but_editor_sizes(a: Seq<ArcCallback>, b: Seq<ArcCallback>) -> bool {
    a.len() == b.len() && forall|i: int| 0 <= i < a.len() ==> sizeless(a[i]) == sizeless(b[i])
}

proof fn lemma_next_active_sizeless(a: Seq<ArcCallback>, b: Seq<ArcCallback>, i: int)
    requires
        same_but_editor_sizes(a, b),
        0 <= i <= a.len(),
    ensures
        next_active(a, i) == next_active(b, i),
    decreases a.len() - i,
{
    if i < a.len() {
        assert(sizeless(a[i]) == sizeless(b[i]));
        lemma_next_active_sizeless(a, b, i + 1);
    }
}

/// An editor's announced size goes unused: two loads that differ only in
/// editors' sizes take the same step, with the same action, buffer and phase.
/// (A step is a function of the load: with equal lists this says so too.)
pub proof fn law_step_ignores_editor_sizes(
    s: FileLoad,
    r: FileLoad,
    action: FileAction,
    s2: FileLoad,
    r2: FileLoad,
    action2: FileAction,
)
    requires
        s.wf(),
        s.advanced(r, action),
        s2.advanced(r2, action2),
        same_but_editor_sizes(s.callbacks@, s2.callbacks@),
        s.next == s2.next,
        s.file == s2.file,
    ensures
        action == action2,
        r.next == r2.next,
        r.file == r2.file,
        r.phase == r2.phase,
{
    lemma_next_active_sizeless(s.callbacks@, s2.callbacks@, s.next as int);
    lemma_next_active(s.callbacks@, s.next as int);
    let j = next_active(s.callbacks@, s.next as int);
    if j < s.callbacks@.len() {
        assert(sizeless(s.callbacks@[j]) == sizeless(s2.callbacks@[j]));
    }
}

impl FileLoad {
    pub open spec fn wf(&self) -> bool {
        self.next <= self.callbacks@.len()
    }

    /// A load of the file described by `info`, with `callbacks` to run.
    pub fn new(info: ArcInfo, callbacks: Vec<ArcCallback>) -> (r: Self)
        ensures
            r.wf(),
            r.info == info,
            r.callbacks@ == callbacks@,
            r.next == 0,
            r.file == (ArcFile { file: 0, len: 0 }),
            r.phase == Phase::Ready,
    {
        FileLoad { info, callbacks, next: 0, file: ArcFile::empty(), phase: Phase::Ready }
    }

    /// What happens from `Ready`: the next callback that is not a listener
    /// is run (a replacer at once; an editor at once if there is a buffer, after
    /// loading the user's file otherwise); with none left, the buffer is handed
    /// over, or, where there is none, the user's file is loaded to be handed over.
    pub open spec fn advanced(self, r: FileLoad, action: FileAction) -> bool {
        let s = self.callbacks@;
        let j = next_active(s, self.next as int);
        &&& r.info == self.info
        &&& r.callbacks@ == s
        &&& r.file == self.file
        &&& if j == s.len() {
            &&& r.next == s.len()
            &&& if self.file.file == 0 {
                r.phase == Phase::LoadBeforeFinish && action == FileAction::LoadUserFile
            } else {
                r.phase == Phase::Done && action == FileAction::Finish
            }
        } else {
            &&& r.next == j + 1
            &&& match s[j] {
                ArcCallback::Replacer(f) => r.phase == Phase::AwaitReplacer && action
                    == FileAction::CallReplacer(f),
                ArcCallback::Editor(_, f) => if self.file.file == 0 {
                    r.phase == Phase::LoadBeforeEditor(f) && action == FileAction::LoadUserFile
                } else {
                    r.phase == Phase::AwaitEditor && action == FileAction::CallEditor(f)
                },
                ArcCallback::Listener(_) => false,
            }
        }
    }

    fn advance(&mut self) -> (action: FileAction)
        requires
            old(self).wf(),
            old(self).phase == Phase::Ready,
        ensures
            final(self).wf(),
            old(self).advanced(*final(self), action),
    {
        proof {
            lemma_next_active(self.callbacks@, self.next as int);
        }
        let mut j = self.next;
        while j < self.callbacks.len() && matches!(self.callbacks[j], ArcCallback::Listener(_))
            invariant
                old(self).next <= j <= self.callbacks@.len(),
                self == old(self),
                next_active(self.callbacks@, old(self).next as int) == next_active(
                    self.callbacks@,
                    j as int,
                ),
            decreases self.callbacks@.len() - j,
        {
            j = j + 1;
        }
        if j == self.callbacks.len() {
            self.next = j;
            if self.file.file == 0 {
                self.phase = Phase::LoadBeforeFinish;
                return FileAction::LoadUserFile;
            }
            self.phase = Phase::Done;
            return FileAction::Finish;
        }
        self.next = j + 1;
        match self.callbacks[j] {
            ArcCallback::Replacer(f) => {
                self.phase = Phase::AwaitReplacer;
                FileAction::CallReplacer(f)
            },
            ArcCallback::Editor(_, f) => {
                if self.file.file == 0 {
                    self.phase = Phase::LoadBeforeEditor(f);
                    FileAction::LoadUserFile
                } else {
                    self.phase = Phase::AwaitEditor;
                    FileAction::CallEditor(f)
                }
            },
            ArcCallback::Listener(_) => {
                // not reached: `j` stopped on a callback that is no listener
                self.phase = Phase::Done;
                FileAction::Finish
            },
        }
    }

    /// The first action of the load.
    pub fn start(&mut self) -> (action: FileAction)
        requires
            old(self).wf(),
            old(self).phase == Phase::Ready,
        ensures
            final(self).wf(),
            old(self).advanced(*final(self), action),
            action matches FileAction::CallEditor(_) ==> final(self).file.file != 0,
            action == FileAction::Finish ==> final(self).file.file != 0,
    {
        self.advance()
    }

    /// The next action, given what came of the last one. A replacer that did not
    /// create the file is followed by loading the user's file, which is `filesize`
    /// bytes long; an editor only ever runs on a buffer, and the buffer handed
    /// over is never null: where no callback left one, it is the user's file.
    pub fn resume(&mut self, event: FileEvent) -> (action: FileAction)
        requires
            old(self).wf(),
            expects(old(self).phase, event),
        ensures
            final(self).wf(),
            action matches FileAction::CallEditor(_) ==> final(self).file.file != 0,
            action == FileAction::Finish ==> final(self).file.file != 0,
            match (old(self).phase, event) {
                (Phase::AwaitReplacer, FileEvent::ReplacerReturned(created, file)) => if created {
                    (FileLoad { file, phase: Phase::Ready, ..*old(self) }).advanced(
                        *final(self),
                        action,
                    )
                } else {
                    &&& final(self).file == file
                    &&& final(self).phase == Phase::LoadAfterReplacer
                    &&& final(self).next == old(self).next
                    &&& final(self).info == old(self).info
                    &&& final(self).callbacks@ == old(self).callbacks@
                    &&& action == FileAction::LoadUserFile
                },
                (Phase::LoadAfterReplacer, FileEvent::UserFileLoaded(b)) => (FileLoad {
                    file: ArcFile { file: b, len: old(self).info.filesize },
                    phase: Phase::Ready,
                    ..*old(self)
                }).advanced(*final(self), action),
                (Phase::LoadBeforeEditor(f), FileEvent::UserFileLoaded(b)) => {
                    &&& final(self).file == (ArcFile { file: b, len: old(self).info.filesize })
                    &&& final(self).phase == Phase::AwaitEditor
                    &&& final(self).next == old(self).next
                    &&& final(self).info == old(self).info
                    &&& final(self).callbacks@ == old(self).callbacks@
                    &&& action == FileAction::CallEditor(f)
                },
                (Phase::AwaitEditor, FileEvent::EditorReturned(file)) => (FileLoad {
                    file,
                    phase: Phase::Ready,
                    ..*old(self)
                }).advanced(*final(self), action),
                (Phase::LoadBeforeFinish, FileEvent::UserFileLoaded(b)) => {
                    &&& final(self).file == (ArcFile { file: b, len: old(self).info.filesize })
                    &&& final(self).phase == Phase::Done
                    &&& final(self).next == old(self).next
                    &&& final(self).info == old(self).info
                    &&& final(self).callbacks@ == old(self).callbacks@
                    &&& action == FileAction::Finish
                },
                _ => false,
            },
    {
        match event {
            FileEvent::ReplacerReturned(created, file) => {
                self.file = file;
                if created {
                    self.phase = Phase::Ready;
                    self.advance()
                } else {
                    self.phase = Phase::LoadAfterReplacer;
                    FileAction::LoadUserFile
                }
            },
            FileEvent::UserFileLoaded(b) => {
                self.file = ArcFile { file: b, len: self.info.filesize };
                match self.phase {
                    Phase::LoadBeforeEditor(f) => {
                        self.phase = Phase::AwaitEditor;
                        FileAction::CallEditor(f)
                    },
                    Phase::LoadBeforeFinish => {
                        self.phase = Phase::Done;
                        FileAction::Finish
                    },
                    _ => {
                        self.phase = Phase::Ready;
                        self.advance()
                    },
                }
            },
            FileEvent::EditorReturned(file) => {
                self.file = file;
                self.phase = Phase::Ready;
                self.advance()
            },
        }
    }
}

} // verus!
