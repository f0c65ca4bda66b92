use arcropolis::api::ArcState;
use arcropolis::api::file_load::{FileAction, FileEvent, Phase};
use arcropolis::ctx::callbacks::{ArcCallback, CallbackType};
use arcropolis::ctx::{ArcFile, ArcInfo, FileCtx, SubFile};

fn file(path: &str, hash: u64, extension: u64, filesize: u32) -> FileCtx {
    let mut c = FileCtx::new();
    c.path = path.as_bytes().to_vec();
    c.hash = hash;
    c.extension = extension;
    c.filesize = filesize;
    c.orig_subfile = SubFile { offset: 1, compressed_size: 2, decompressed_size: 77, flags: 4 };
    c
}

#[test]
fn unknown_hash_is_not_served() {
    let s = ArcState::new();
    assert_eq!(s.has_hash(5), None);
    assert_eq!(s.get_arc_file(5), None);
    assert!(s.get_arc_file_path(5).is_none());
    assert!(s.get_file(5).is_none());
    assert!(s.get(5).is_none());
}

#[test]
fn added_files_are_served_by_hash() {
    let mut s = ArcState::new();
    s.add_entries(vec![file("sd:/a.nutexb", 1, 10, 100), file("sd:/b.msbt", 2, 20, 200)]);
    assert_eq!(s.has_hash(1), Some(vec![]));
    assert_eq!(s.get_arc_file(2), Some(ArcInfo { hash: 2, filesize: 200, extension: 20, orig_decomp_size: 77 }));
    let p = s.get_arc_file_path(1).unwrap();
    assert_eq!(p.path(), Some(b"sd:/a.nutexb".to_vec()));
    assert_eq!(s.get(2).unwrap().path(), b"sd:/b.msbt");
}

#[test]
fn later_entry_with_same_hash_wins() {
    let mut s = ArcState::new();
    s.add_entries(vec![file("sd:/old.nutexb", 1, 10, 100)]);
    s.add_entries(vec![file("sd:/first.nutexb", 1, 10, 5), file("sd:/other.bin", 3, 30, 9),
        file("sd:/last.nutexb", 1, 10, 6)]);
    assert_eq!(s.get(1).unwrap().path(), b"sd:/last.nutexb");
    assert_eq!(s.get_arc_file(1).unwrap().filesize, 6);
    assert_eq!(s.get_arc_file(3).unwrap().filesize, 9);
}

#[test]
fn has_hash_lists_file_listeners_in_order() {
    let mut s = ArcState::new();
    s.add_entries(vec![file("sd:/a.nutexb", 1, 10, 100)]);
    s.install_callback(CallbackType::File(1), ArcCallback::Listener(3));
    s.install_callback(CallbackType::File(1), ArcCallback::Replacer(4));
    s.install_callback(CallbackType::File(1), ArcCallback::Listener(9));
    // listeners on the extension are not told
    s.install_callback(CallbackType::Extension(10), ArcCallback::Listener(11));
    assert_eq!(s.has_hash(1), Some(vec![9, 3]));
    // listeners on a hash that is not served are not told either
    s.install_callback(CallbackType::File(2), ArcCallback::Listener(12));
    assert_eq!(s.has_hash(2), None);
}

#[test]
fn get_file_without_callbacks_serves_the_user_file() {
    let mut s = ArcState::new();
    s.add_entries(vec![file("sd:/a.nutexb", 1, 10, 100)]);
    let mut load = s.get_file(1).unwrap();
    assert_eq!(load.info, ArcInfo { hash: 1, filesize: 100, extension: 10, orig_decomp_size: 77 });
    assert_eq!(load.file, ArcFile { file: 0, len: 0 });
    assert_eq!(load.start(), FileAction::LoadUserFile);
    assert_eq!(load.phase, Phase::LoadBeforeFinish);
    assert_eq!(load.resume(FileEvent::UserFileLoaded(0x5000)), FileAction::Finish);
    assert_eq!(load.phase, Phase::Done);
    assert_eq!(load.file, ArcFile { file: 0x5000, len: 100 });
}

#[test]
fn get_file_with_only_listeners_serves_the_user_file() {
    let mut s = ArcState::new();
    s.add_entries(vec![file("sd:/a.nutexb", 1, 10, 100)]);
    s.install_callback(CallbackType::File(1), ArcCallback::Listener(3));
    let mut load = s.get_file(1).unwrap();
    assert_eq!(load.start(), FileAction::LoadUserFile);
    assert_eq!(load.resume(FileEvent::UserFileLoaded(0x5000)), FileAction::Finish);
    assert_eq!(load.file, ArcFile { file: 0x5000, len: 100 });
}

#[test]
fn replacer_that_leaves_no_buffer_is_followed_by_the_user_file() {
    let mut s = ArcState::new();
    s.add_entries(vec![file("sd:/a.nutexb", 1, 10, 100)]);
    s.install_callback(CallbackType::File(1), ArcCallback::Replacer(30));
    let mut load = s.get_file(1).unwrap();
    assert_eq!(load.start(), FileAction::CallReplacer(30));
    // it says it created the file, yet left the buffer null
    assert_eq!(load.resume(FileEvent::ReplacerReturned(true, ArcFile { file: 0, len: 0 })),
        FileAction::LoadUserFile);
    assert_eq!(load.resume(FileEvent::UserFileLoaded(0x6000)), FileAction::Finish);
    assert_eq!(load.file, ArcFile { file: 0x6000, len: 100 });
}

#[test]
fn editor_size_does_not_change_the_load() {
    for size in [0u32, 7, 5000] {
        let mut s = ArcState::new();
        s.add_entries(vec![file("sd:/a.nutexb", 1, 10, 100)]);
        s.install_callback(CallbackType::File(1), ArcCallback::Editor(size, 40));
        s.install_callback(CallbackType::File(1), ArcCallback::Editor(3, 41));
        let mut load = s.get_file(1).unwrap();
        assert_eq!(load.start(), FileAction::LoadUserFile);
        assert_eq!(load.resume(FileEvent::UserFileLoaded(0x3000)), FileAction::CallEditor(41));
        let f = ArcFile { file: 0x3000, len: 100 };
        assert_eq!(load.resume(FileEvent::EditorReturned(f)), FileAction::CallEditor(40));
        assert_eq!(load.resume(FileEvent::EditorReturned(f)), FileAction::Finish);
    }
}

#[test]
fn get_file_runs_file_callbacks_then_extension_callbacks() {
    let mut s = ArcState::new();
    s.add_entries(vec![file("sd:/a.nutexb", 1, 10, 100)]);
    s.install_callback(CallbackType::Extension(10), ArcCallback::Editor(0, 50));
    s.install_callback(CallbackType::File(1), ArcCallback::Listener(60));
    s.install_callback(CallbackType::File(1), ArcCallback::Editor(0, 40));
    s.install_callback(CallbackType::File(1), ArcCallback::Replacer(30));
    let mut load = s.get_file(1).unwrap();
    assert_eq!(load.callbacks, vec![ArcCallback::Replacer(30), ArcCallback::Editor(0, 40),
        ArcCallback::Listener(60), ArcCallback::Editor(0, 50)]);

    // the replacer creates the file itself
    assert_eq!(load.start(), FileAction::CallReplacer(30));
    let made = ArcFile { file: 0x1000, len: 64 };
    assert_eq!(load.resume(FileEvent::ReplacerReturned(true, made)), FileAction::CallEditor(40));
    let edited = ArcFile { file: 0x1000, len: 80 };
    assert_eq!(load.resume(FileEvent::EditorReturned(edited)), FileAction::CallEditor(50));
    assert_eq!(load.resume(FileEvent::EditorReturned(edited)), FileAction::Finish);
    assert_eq!(load.file, edited);
}

#[test]
fn get_file_loads_user_file_when_replacer_declines() {
    let mut s = ArcState::new();
    s.add_entries(vec![file("sd:/a.nutexb", 1, 10, 100)]);
    s.install_callback(CallbackType::File(1), ArcCallback::Replacer(30));
    let mut load = s.get_file(1).unwrap();
    assert_eq!(load.start(), FileAction::CallReplacer(30));
    assert_eq!(load.resume(FileEvent::ReplacerReturned(false, ArcFile { file: 0, len: 0 })),
        FileAction::LoadUserFile);
    assert_eq!(load.resume(FileEvent::UserFileLoaded(0x2000)), FileAction::Finish);
    assert_eq!(load.file, ArcFile { file: 0x2000, len: 100 });
}

#[test]
fn editor_without_buffer_gets_the_user_file_first() {
    let mut s = ArcState::new();
    s.add_entries(vec![file("sd:/a.nutexb", 1, 10, 100)]);
    s.install_callback(CallbackType::Extension(10), ArcCallback::Editor(500, 40));
    let mut load = s.get_file(1).unwrap();
    assert_eq!(load.start(), FileAction::LoadUserFile);
    assert_eq!(load.phase, Phase::LoadBeforeEditor(40));
    assert_eq!(load.resume(FileEvent::UserFileLoaded(0x3000)), FileAction::CallEditor(40));
    assert_eq!(load.file, ArcFile { file: 0x3000, len: 100 });
    assert_eq!(load.resume(FileEvent::EditorReturned(ArcFile { file: 0x3000, len: 120 })),
        FileAction::Finish);
    assert_eq!(load.file, ArcFile { file: 0x3000, len: 120 });
}

#[test]
fn second_editor_runs_on_the_buffer_the_first_left() {
    let mut s = ArcState::new();
    s.add_entries(vec![file("sd:/a.nutexb", 1, 10, 100)]);
    s.install_callback(CallbackType::File(1), ArcCallback::Editor(0, 40));
    s.install_callback(CallbackType::File(1), ArcCallback::Editor(0, 41));
    let mut load = s.get_file(1).unwrap();
    assert_eq!(load.start(), FileAction::LoadUserFile);
    assert_eq!(load.resume(FileEvent::UserFileLoaded(0x3000)), FileAction::CallEditor(41));
    // the first editor dropped the buffer: the second gets the user's file again
    assert_eq!(load.resume(FileEvent::EditorReturned(ArcFile { file: 0, len: 0 })),
        FileAction::LoadUserFile);
    assert_eq!(load.resume(FileEvent::UserFileLoaded(0x4000)), FileAction::CallEditor(40));
}

#[test]
fn replacer_after_editor_still_runs() {
    // a replacer on the extension runs after the file's own editor
    let mut s = ArcState::new();
    s.add_entries(vec![file("sd:/a.nutexb", 1, 10, 100)]);
    s.install_callback(CallbackType::File(1), ArcCallback::Editor(0, 40));
    s.install_callback(CallbackType::Extension(10), ArcCallback::Replacer(70));
    let mut load = s.get_file(1).unwrap();
    assert_eq!(load.start(), FileAction::LoadUserFile);
    assert_eq!(load.resume(FileEvent::UserFileLoaded(0x3000)), FileAction::CallEditor(40));
    let after = ArcFile { file: 0x3000, len: 100 };
    assert_eq!(load.resume(FileEvent::EditorReturned(after)), FileAction::CallReplacer(70));
    assert_eq!(load.resume(FileEvent::ReplacerReturned(true, after)), FileAction::Finish);
    assert_eq!(load.next, 2);
}
