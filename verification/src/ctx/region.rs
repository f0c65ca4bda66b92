//! Regional files: a file whose name carries `+` and a five-byte region code
//! (`model+us_en.numatb`) is meant for that region only.
use vstd::prelude::*;
use vstd::utf8::valid_utf8;
use crate::files::names::{
    at_char_boundary, copy_range, extension, extension_of, file_name, file_name_of, find,
    first_index_of,
};

verus! {

pub open spec fn code5(a: char, b: char, c: char, d: char, e: char) -> Seq<u8> {
    seq![a as u8, b as u8, c as u8, d as u8, e as u8]
}

/// The game's index of a region code; an unknown code counts as `us_en`.
pub open spec fn region_index_of(code: Seq<u8>) -> u32 {
    if code == code5('j', 'p', '_', 'j', 'a') {
        0
    } else if code == code5('u', 's', '_', 'e', 'n') {
        1
    } else if code == code5('u', 's', '_', 'f', 'r') {
        2
    } else if code == code5('u', 's', '_', 'e', 's') {
        3
    } else if code == code5('e', 'u', '_', 'e', 'n') {
        4
    } else if code == code5('e', 'u', '_', 'f', 'r') {
        5
    } else if code == code5('e', 'u', '_', 'e', 's') {
        6
    } else if code == code5('e', 'u', '_', 'd', 'e') {
        7
    } else if code == code5('e', 'u', '_', 'n', 'l') {
        8
    } else if code == code5('e', 'u', '_', 'i', 't') {
        9
    } else if code == code5('e', 'u', '_', 'r', 'u') {
        10
    } else if code == code5('k', 'r', '_', 'k', 'o') {
        11
    } else if code == code5('z', 'h', '_', 'c', 'n') {
        12
    } else if code == code5('z', 'h', '_', 't', 'w') {
        13
    } else {
        1
    }
}

/// The region a file at `path` is meant for: the code after the first `+` of its
/// file name, where the path has an extension and the name a `+`; the
/// player's region otherwise.
pub open spec fn region_of(path: Seq<u8>, default_region: u32) -> u32 {
    match extension_of(path) {
        None => default_region,
        Some(_) => match file_name_of(path) {
            None => default_region,
            Some(name) => {
                let m = first_index_of(name, '+' as u8);
                if m < name.len() {
                    region_index_of(name.subrange(m + 1, m + 6))
                } else {
                    default_region
                }
            },
        },
    }
}

/// A file without a regional marker, or without an extension, is for the
/// player's region.
pub proof fn law_unmarked_file_is_for_player_region(path: Seq<u8>, default_region: u32)
    requires
        extension_of(path) is None || (file_name_of(path) matches Some(name) && first_index_of(
            name,
            '+' as u8,
        ) == name.len()),
    ensures
        region_of(path, default_region) == default_region,
{
}

/// A regional file is for a region the game knows (0 to 13).
pub proof fn law_marked_region_is_known(path: Seq<u8>, default_region: u32)
    requires
        extension_of(path) is Some,
        file_name_of(path) matches Some(name) && first_index_of(name, '+' as u8) < name.len(),
    ensures
        region_of(path, default_region) <= 13,
{
}

/// A regional file is for the region its marker names, whatever the player's
/// region: the player's region only counts for files without a marker.
pub proof fn law_marked_region_ignores_player_region(path: Seq<u8>, d1: u32, d2: u32)
    requires
        extension_of(path) is Some,
        file_name_of(path) matches Some(name) && first_index_of(name, '+' as u8) < name.len(),
    ensures
        region_of(path, d1) == region_of(path, d2),
{
}

/// Two regional files whose markers carry the same five bytes are for the same
/// region, whatever else their paths hold and whatever the player's region.
pub proof fn law_region_depends_only_on_marker(p1: Seq<u8>, p2: Seq<u8>, d1: u32, d2: u32)
    requires
        extension_of(p1) is Some,
        extension_of(p2) is Some,
        file_name_of(p1) matches Some(n1) && file_name_of(p2) matches Some(n2) && {
            let m1 = first_index_of(n1, '+' as u8);
            let m2 = first_index_of(n2, '+' as u8);
            &&& m1 < n1.len()
            &&& m2 < n2.len()
            &&& m1 + 6 <= n1.len()
            &&& m2 + 6 <= n2.len()
            &&& n1.subrange(m1 + 1, m1 + 6) == n2.subrange(m2 + 1, m2 + 6)
        },
    ensures
        region_of(p1, d1) == region_of(p2, d2),
{
}

/// The fourteen region codes the game knows, each with its index; any other
/// five bytes count as `us_en`.
pub proof fn law_region_codes(code: Seq<u8>)
    ensures
        region_index_of(code5('j', 'p', '_', 'j', 'a')) == 0,
        region_index_of(code5('u', 's', '_', 'e', 'n')) == 1,
        region_index_of(code5('u', 's', '_', 'f', 'r')) == 2,
        region_index_of(code5('u', 's', '_', 'e', 's')) == 3,
        region_index_of(code5('e', 'u', '_', 'e', 'n')) == 4,
        region_index_of(code5('e', 'u', '_', 'f', 'r')) == 5,
        region_index_of(code5('e', 'u', '_', 'e', 's')) == 6,
        region_index_of(code5('e', 'u', '_', 'd', 'e')) == 7,
        region_index_of(code5('e', 'u', '_', 'n', 'l')) == 8,
        region_index_of(code5('e', 'u', '_', 'i', 't')) == 9,
        region_index_of(code5('e', 'u', '_', 'r', 'u')) == 10,
        region_index_of(code5('k', 'r', '_', 'k', 'o')) == 11,
        region_index_of(code5('z', 'h', '_', 'c', 'n')) == 12,
        region_index_of(code5('z', 'h', '_', 't', 'w')) == 13,
        region_index_of(code) <= 13,
        region_index_of(code) == 0 ==> code == code5('j', 'p', '_', 'j', 'a'),
{
    let codes = seq![
        code5('j', 'p', '_', 'j', 'a'),
        code5('u', 's', '_', 'e', 'n'),
        code5('u', 's', '_', 'f', 'r'),
        code5('u', 's', '_', 'e', 's'),
        code5('e', 'u', '_', 'e', 'n'),
        code5('e', 'u', '_', 'f', 'r'),
        code5('e', 'u', '_', 'e', 's'),
        code5('e', 'u', '_', 'd', 'e'),
        code5('e', 'u', '_', 'n', 'l'),
        code5('e', 'u', '_', 'i', 't'),
        code5('e', 'u', '_', 'r', 'u'),
        code5('k', 'r', '_', 'k', 'o'),
        code5('z', 'h', '_', 'c', 'n'),
        code5('z', 'h', '_', 't', 'w'),
    ];
    assert forall|i: int, j: int| 0 <= i < j < 14 implies codes[i] != codes[j] by {
        if codes[i] == codes[j] {
            assert(codes[i][0] == codes[j][0] && codes[i][1] == codes[j][1]);
            assert(codes[i][3] == codes[j][3] && codes[i][4] == codes[j][4]);
        }
    }
}

/// Where the region code is read, five bytes follow the `+` and end on a
/// character boundary.
pub open spec fn region_marker_readable(path: Seq<u8>) -> bool {
    match (extension_of(path), file_name_of(path)) {
        (Some(_), Some(name)) => {
            let m = first_index_of(name, '+' as u8);
            m < name.len() ==> m + 6 <= name.len() && at_char_boundary(name, m + 6)
        },
        _ => true,
    }
}

/// Where the region code is read, the file name is UTF-8.
pub open spec fn region_name_utf8(path: Seq<u8>) -> bool {
    match (extension_of(path), file_name_of(path)) {
        (Some(_), Some(name)) => valid_utf8(name),
        _ => true,
    }
}

fn is_code(code: &[u8], a: char, b: char, c: char, d: char, e: char) -> (r: bool)
    ensures
        r == (code@ == code5(a, b, c, d, e)),
{
    let r = code.len() == 5 && code[0] == a as u8 && code[1] == b as u8 && code[2] == c as u8
        && code[3] == d as u8 && code[4] == e as u8;
    proof {
        if code@ == code5(a, b, c, d, e) {
            assert(code@[0] == a as u8 && code@[1] == b as u8 && code@[2] == c as u8);
            assert(code@[3] == d as u8 && code@[4] == e as u8);
        }
        if r {
            assert(code@ == code5(a, b, c, d, e));
        }
    }
    r
}

/// The game's index of a region code.
pub fn region_index(code: &[u8]) -> (r: u32)
    ensures
        r == region_index_of(code@),
{
    if is_code(code, 'j', 'p', '_', 'j', 'a') {
        0
    } else if is_code(code, 'u', 's', '_', 'e', 'n') {
        1
    } else if is_code(code, 'u', 's', '_', 'f', 'r') {
        2
    } else if is_code(code, 'u', 's', '_', 'e', 's') {
        3
    } else if is_code(code, 'e', 'u', '_', 'e', 'n') {
        4
    } else if is_code(code, 'e', 'u', '_', 'f', 'r') {
        5
    } else if is_code(code, 'e', 'u', '_', 'e', 's') {
        6
    } else if is_code(code, 'e', 'u', '_', 'd', 'e') {
        7
    } else if is_code(code, 'e', 'u', '_', 'n', 'l') {
        8
    } else if is_code(code, 'e', 'u', '_', 'i', 't') {
        9
    } else if is_code(code, 'e', 'u', '_', 'r', 'u') {
        10
    } else if is_code(code, 'k', 'r', '_', 'k', 'o') {
        11
    } else if is_code(code, 'z', 'h', '_', 'c', 'n') {
        12
    } else if is_code(code, 'z', 'h', '_', 't', 'w') {
        13
    } else {
        1
    }
}

/// Whether the region code of `path` can be read (see `region_marker_readable`).
pub fn check_region_marker(path: &[u8]) -> (r: bool)
    ensures
        r == region_marker_readable(path@),
{
    match extension(path) {
        None => true,
        Some(_) => match file_name(path) {
            None => true,
            Some(name) => {
                let m = find(name.as_slice(), '+' as u8);
                if m < name.len() {
                    if name.len() - m < 6 {
                        false
                    } else {
                        let k = m + 6;
                        k == name.len() || name[k] < 0x80 || name[k] >= 0xc0
                    }
                } else {
                    true
                }
            },
        },
    }
}

/// The region a file at `path` is meant for, `default_region` being the player's.
pub fn region_of_path(path: &[u8], default_region: u32) -> (r: u32)
    requires
        region_marker_readable(path@),
        region_name_utf8(path@),
    ensures
        r == region_of(path@, default_region),
{
    match extension(path) {
        None => default_region,
        Some(_) => match file_name(path) {
            None => default_region,
            Some(name) => {
                let m = find(name.as_slice(), '+' as u8);
                if m < name.len() {
                    let code = copy_range(name.as_slice(), m + 1, m + 6);
                    region_index(code.as_slice())
                } else {
                    default_region
                }
            },
        },
    }
}

} // verus!
