use arcropolis::arc::ArcPath;

#[test]
fn arc_path_new_keeps_bytes_and_length() {
    let p = ArcPath::new(b"sd:/ultimate/mods");
    assert_eq!(p.path, Some(b"sd:/ultimate/mods".to_vec()));
    assert_eq!(p.path_len, 17);
}

#[test]
fn arc_path_length_is_cut_to_a_byte() {
    let long = vec![b'a'; 300];
    let p = ArcPath::new(&long);
    assert_eq!(p.path_len, 44);
    assert_eq!(p.path(), Some(vec![b'a'; 44]));
}

#[test]
fn arc_path_round_trip() {
    let p = ArcPath::new("sd:/ultimate/mods/møøse".as_bytes());
    assert_eq!(p.path(), Some("sd:/ultimate/mods/møøse".as_bytes().to_vec()));
}

#[test]
fn arc_path_null_is_none() {
    let p = ArcPath { path: None, path_len: 3 };
    assert_eq!(p.path(), None);
}

#[test]
fn arc_path_empty() {
    let p = ArcPath::new(b"");
    assert_eq!(p.path_len, 0);
    assert_eq!(p.path(), Some(Vec::new()));
}
