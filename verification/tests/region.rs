use arcropolis::ctx::region::{check_region_marker, region_index, region_of_path};

#[test]
fn every_region_code_has_its_index() {
    let codes = ["jp_ja", "us_en", "us_fr", "us_es", "eu_en", "eu_fr", "eu_es", "eu_de", "eu_nl",
        "eu_it", "eu_ru", "kr_ko", "zh_cn", "zh_tw"];
    for (i, c) in codes.iter().enumerate() {
        assert_eq!(region_index(c.as_bytes()), i as u32);
    }
}

#[test]
fn unknown_region_code_counts_as_us_en() {
    assert_eq!(region_index(b"xx_yy"), 1);
    assert_eq!(region_index(b"jp_j"), 1);
}

#[test]
fn regional_file_is_for_its_region() {
    assert_eq!(region_of_path(b"sd:/mods/ui/msg_menu+eu_fr.msbt", 7), 5);
    assert_eq!(region_of_path(b"sd:/mods/ui/msg_menu+zh_tw.msbt", 1), 13);
}

#[test]
fn unmarked_file_is_for_the_player_region() {
    assert_eq!(region_of_path(b"sd:/mods/ui/msg_menu.msbt", 7), 7);
    // no extension: the marker is not read
    assert_eq!(region_of_path(b"sd:/mods/ui/msg_menu+eu_fr", 7), 7);
    // a marker in a directory name is not read
    assert_eq!(region_of_path(b"sd:/mods/ui+jp_ja/msg.msbt", 4), 4);
}

#[test]
fn region_marker_must_hold_five_bytes() {
    assert!(check_region_marker(b"a/b+us_en.msbt"));
    assert!(!check_region_marker(b"a/b+us.x"));
    assert!(check_region_marker(b"a/b.x"));
    assert!(check_region_marker(b"a/b+us"));
    // the five bytes must end on a character boundary
    assert!(!check_region_marker("a/b+us_eé.x".as_bytes()));
}
