use arcropolis::files::names::{arc_path_from, extension, file_name, find, replace_semicolons_in};

fn name(p: &str) -> Option<String> {
    file_name(p.as_bytes()).map(|b| String::from_utf8(b).unwrap())
}

fn ext(p: &str) -> Option<String> {
    extension(p.as_bytes()).map(|b| String::from_utf8(b).unwrap())
}

fn arc(p: &str) -> String {
    String::from_utf8(arc_path_from(p.as_bytes())).unwrap()
}

#[test]
fn file_name_is_the_last_component() {
    assert_eq!(name("fighter/mario/model.nutexb"), Some("model.nutexb".to_string()));
    assert_eq!(name("model.nutexb"), Some("model.nutexb".to_string()));
    assert_eq!(name("fighter/mario/"), Some("mario".to_string()));
    assert_eq!(name("fighter/mario/."), Some("mario".to_string()));
    assert_eq!(name("fighter//mario//"), Some("mario".to_string()));
}

#[test]
fn file_name_is_missing_for_roots_and_parents() {
    assert_eq!(name(""), None);
    assert_eq!(name("/"), None);
    assert_eq!(name("."), None);
    assert_eq!(name("./"), None);
    assert_eq!(name("fighter/.."), None);
    assert_eq!(name(".."), None);
}

#[test]
fn file_name_agrees_with_std_path() {
    for p in ["a/b.c", "a/b/", "a/./", "/", "..", "a/..", "x", "./x", "a//b", ".hidden", "a/b./"] {
        let expected = std::path::Path::new(p).file_name().map(|s| s.to_str().unwrap().to_string());
        assert_eq!(name(p), expected, "{}", p);
    }
}

#[test]
fn extension_follows_the_last_dot() {
    assert_eq!(ext("a/b.tar.gz"), Some("gz".to_string()));
    assert_eq!(ext("model.nutexb"), Some("nutexb".to_string()));
    assert_eq!(ext("a."), Some("".to_string()));
    assert_eq!(ext(".bashrc"), None);
    assert_eq!(ext(".config.toml"), Some("toml".to_string()));
    assert_eq!(ext("dir.d/file"), None);
    assert_eq!(ext("a/.."), None);
}

#[test]
fn extension_agrees_with_std_path() {
    for p in ["a/b.c", "a.b/c", ".x", ".x.y", "a.", "a/b./", "..", "a/.", "x.y/", "noext"] {
        let expected = std::path::Path::new(p).extension().map(|s| s.to_str().unwrap().to_string());
        assert_eq!(ext(p), expected, "{}", p);
    }
}

#[test]
fn find_gives_first_index_or_length() {
    assert_eq!(find(b"a+b+c", b'+'), 1);
    assert_eq!(find(b"abc", b'+'), 3);
    assert_eq!(find(b"", b'+'), 0);
}

#[test]
fn semicolons_become_colons() {
    assert_eq!(replace_semicolons_in(b"prebuilt;/nro;x"), b"prebuilt:/nro:x".to_vec());
}

#[test]
fn arc_path_plain() {
    assert_eq!(arc("fighter/mario/model/body/c00/def_mario_001_col.nutexb"),
        "fighter/mario/model/body/c00/def_mario_001_col.nutexb");
}

#[test]
fn arc_path_cuts_regional_marker() {
    assert_eq!(arc("ui/message/msg_menu+us_en.msbt"), "ui/message/msg_menu.msbt");
}

#[test]
fn arc_path_videos_become_webm() {
    assert_eq!(arc("stream;/movie/intro.mp4"), "stream:/movie/intro.webm");
    assert_eq!(arc("stream/moviemp4"), "stream/moviewebm");
    assert_eq!(arc("a.mp3"), "a.mp3");
}

#[test]
fn arc_path_all_rewrites() {
    assert_eq!(arc("stream;/movie/intro+jp_ja.mp4"), "stream:/movie/intro.webm");
}

#[test]
fn arc_path_has_no_semicolon() {
    let a = arc("a;b;c/d;e.nutexb");
    assert!(!a.contains(';'));
    assert_eq!(a, "a:b:c/d:e.nutexb");
}
