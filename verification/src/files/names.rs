//! Byte-level views of the paths the loader handles: the final component of a
//! path, its extension, and the rewriting of an on-disk path into the path that
//! the ARC archive knows the file by.
//!
//! Paths are `/`-separated byte strings, as the console's file system writes
//! them; `file_name_of` and `extension_of` follow the documented behaviour of
//! `std::path::Path::file_name` and `Path::extension` for such paths.
use vstd::prelude::*;

verus! {

/// The index of the first `b` in `s`, or `s.len()` where `s` holds none.
pub open spec fn first_index_of<T>(s: Seq<T>, b: T) -> int
    decreases s.len(),
{
    if s.len() == 0 {
        0
    } else if s[0] == b {
        0
    } else {
        1 + first_index_of(s.drop_first(), b)
    }
}

/// The index of the last `b` in `s`, or -1 where `s` holds none.
pub open spec fn last_index_of(s: Seq<u8>, b: u8) -> int
    decreases s.len(),
{
    if s.len() == 0 {
        -1
    } else if s.last() == b {
        s.len() - 1
    } else {
        last_index_of(s.drop_last(), b)
    }
}

/// A continuation byte of UTF-8 (`10xxxxxx`).
pub open spec fn is_continuation(b: u8) -> bool {
    0x80 <= b < 0xc0
}

/// Whether byte offset `i` of `s` may start or end a `str` slice, as
/// `str::is_char_boundary` decides it.
pub open spec fn at_char_boundary(s: Seq<u8>, i: int) -> bool {
    i == 0 || i == s.len() || (0 <= i < s.len() && !is_continuation(s[i]))
}

/// `p` without its trailing separators and trailing `.` components.
pub open spec fn trim_trailing(p: Seq<u8>) -> Seq<u8>
    decreases p.len(),
{
    if p.len() == 0 {
        p
    } else if p.last() == '/' as u8 {
        trim_trailing(p.drop_last())
    } else if p.last() == '.' as u8 && (p.len() == 1 || p[p.len() - 2] == '/' as u8) {
        trim_trailing(p.drop_last())
    } else {
        p
    }
}

/// Where the last component of `p` starts: just after its last separator.
pub open spec fn last_segment_start(p: Seq<u8>) -> int
    decreases p.len(),
{
    if p.len() == 0 {
        0
    } else if p.last() == '/' as u8 {
        p.len() as int
    } else {
        last_segment_start(p.drop_last())
    }
}

/// The final component of `p`, if it is a normal one (not `..`, a root or nothing).
pub open spec fn file_name_of(p: Seq<u8>) -> Option<Seq<u8>> {
    let q = trim_trailing(p);
    if q.len() == 0 {
        None
    } else {
        let name = q.skip(last_segment_start(q));
        if name == seq!['.' as u8, '.' as u8] {
            None
        } else {
            Some(name)
        }
    }
}

/// The extension of `p`: what follows the last `.` of its file name, where that
/// `.` is not the name's first byte.
pub open spec fn extension_of(p: Seq<u8>) -> Option<Seq<u8>> {
    match file_name_of(p) {
        None => None,
        Some(name) => {
            let k = last_index_of(name, '.' as u8);
            if k <= 0 {
                None
            } else {
                Some(name.skip(k + 1))
            }
        },
    }
}

pub proof fn lemma_first_index_of<T>(s: Seq<T>, b: T)
    ensures
        0 <= first_index_of(s, b) <= s.len(),
        forall|j: int| 0 <= j < first_index_of(s, b) ==> s[j] != b,
        first_index_of(s, b) < s.len() ==> s[first_index_of(s, b)] == b,
    decreases s.len(),
{
    if s.len() > 0 && s[0] != b {
        lemma_first_index_of(s.drop_first(), b);
        assert forall|j: int| 0 <= j < first_index_of(s, b) implies s[j] != b by {
            if j > 0 {
                assert(s[j] == s.drop_first()[j - 1]);
            }
        }
    }
}

pub proof fn lemma_first_index_of_at<T>(s: Seq<T>, b: T, i: int)
    requires
        0 <= i <= s.len(),
        forall|j: int| 0 <= j < i ==> s[j] != b,
        i < s.len() ==> s[i] == b,
    ensures
        first_index_of(s, b) == i,
{
    lemma_first_index_of(s, b);
}

pub proof fn lemma_last_index_of(s: Seq<u8>, b: u8)
    ensures
        -1 <= last_index_of(s, b) < s.len(),
        forall|j: int| last_index_of(s, b) < j < s.len() ==> s[j] != b,
        last_index_of(s, b) >= 0 ==> s[last_index_of(s, b)] == b,
    decreases s.len(),
{
    if s.len() > 0 && s.last() != b {
        lemma_last_index_of(s.drop_last(), b);
        assert forall|j: int| last_index_of(s, b) < j < s.len() implies s[j] != b by {
            if j < s.len() - 1 {
                assert(s[j] == s.drop_last()[j]);
            }
        }
    }
}

proof fn lemma_last_index_of_at(s: Seq<u8>, b: u8, i: int)
    requires
        -1 <= i < s.len(),
        forall|j: int| i < j < s.len() ==> s[j] != b,
        i >= 0 ==> s[i] == b,
    ensures
        last_index_of(s, b) == i,
{
    lemma_last_index_of(s, b);
}

proof fn lemma_last_segment_start(p: Seq<u8>, start: int)
    requires
        0 <= start <= p.len(),
        start == 0 || p[start - 1] == '/' as u8,
        forall|j: int| start <= j < p.len() ==> p[j] != '/' as u8,
    ensures
        last_segment_start(p) == start,
    decreases p.len(),
{
    if p.len() > 0 && p.len() != start {
        assert(p.drop_last().len() == p.len() - 1);
        lemma_last_segment_start(p.drop_last(), start);
    }
}

/// Where the name of `p` lies, as a byte range, if it has one.
fn file_name_range(p: &[u8]) -> (r: Option<(usize, usize)>)
    ensures
        match r {
            Some((start, end)) => start <= end <= p@.len() && file_name_of(p@) == Some(
                p@.subrange(start as int, end as int),
            ),
            None => file_name_of(p@) is None,
        },
{
    let mut end: usize = p.len();
    assert(p@.take(end as int) == p@);
    loop
        invariant
            end <= p@.len(),
            trim_trailing(p@.take(end as int)) == trim_trailing(p@),
        ensures
            end <= p@.len(),
            trim_trailing(p@) == p@.take(end as int),
        decreases end,
    {
        if end == 0 {
            break;
        }
        let last = p[end - 1];
        let trimmable = last == '/' as u8 || (last == '.' as u8 && (end == 1 || p[end - 2]
            == '/' as u8));
        if !trimmable {
            break;
        }
        assert(p@.take(end as int).drop_last() == p@.take(end - 1));
        end = end - 1;
    }
    if end == 0 {
        return None;
    }
    let mut start: usize = end;
    while start > 0 && p[start - 1] != '/' as u8
        invariant
            start <= end <= p@.len(),
            forall|j: int| start <= j < end ==> p@[j] != '/' as u8,
        decreases start,
    {
        start = start - 1;
    }
    let ghost q = p@.take(end as int);
    proof {
        lemma_last_segment_start(q, start as int);
        assert(q.skip(start as int) == p@.subrange(start as int, end as int));
    }
    if end - start == 2 && p[start] == '.' as u8 && p[start + 1] == '.' as u8 {
        assert(q.skip(start as int) == seq!['.' as u8, '.' as u8]);
        return None;
    }
    assert(q.skip(start as int) != seq!['.' as u8, '.' as u8]) by {
        if q.skip(start as int) == seq!['.' as u8, '.' as u8] {
            assert(q.skip(start as int)[0] == p@[start as int]);
            assert(q.skip(start as int)[1] == p@[start + 1]);
        }
    }
    Some((start, end))
}

/// The final component of `p`, as `Path::file_name` gives it.
pub fn file_name(p: &[u8]) -> (r: Option<Vec<u8>>)
    ensures
        match r {
            Some(name) => file_name_of(p@) == Some(name@),
            None => file_name_of(p@) is None,
        },
{
    match file_name_range(p) {
        Some((start, end)) => Some(copy_range(p, start, end)),
        None => None,
    }
}

/// The extension of `p`, as `Path::extension` gives it.
pub fn extension(p: &[u8]) -> (r: Option<Vec<u8>>)
    ensures
        match r {
            Some(ext) => extension_of(p@) == Some(ext@),
            None => extension_of(p@) is None,
        },
{
    match file_name_range(p) {
        None => None,
        Some((start, end)) => {
            let ghost name = p@.subrange(start as int, end as int);
            let mut k: usize = end;
            while k > start && p[k - 1] != '.' as u8
                invariant
                    start <= k <= end <= p@.len(),
                    forall|j: int| k <= j < end ==> p@[j] != '.' as u8,
                decreases k,
            {
                k = k - 1;
            }
            // `k` is one past the last dot of the name, or `start` where there is none.
            proof {
                if k > start {
                    lemma_last_index_of_at(name, '.' as u8, k - 1 - start);
                } else {
                    lemma_last_index_of_at(name, '.' as u8, -1);
                }
            }
            if k - start <= 1 {
                None
            } else {
                let ext = copy_range(p, k, end);
                assert(ext@ == name.skip(k - start));
                Some(ext)
            }
        },
    }
}

/// The bytes `p[start..end]`.
pub fn copy_range(p: &[u8], start: usize, end: usize) -> (r: Vec<u8>)
    requires
        start <= end <= p@.len(),
    ensures
        r@ == p@.subrange(start as int, end as int),
{
    let mut out: Vec<u8> = Vec::new();
    let mut i: usize = start;
    while i < end
        invariant
            start <= i <= end <= p@.len(),
            out@ == p@.subrange(start as int, i as int),
        decreases end - i,
    {
        out.push(p[i]);
        i = i + 1;
    }
    out
}

/// The first index of `b` in `s`, or `s.len()`, as `str::find` gives it for an
/// ASCII byte.
pub fn find(s: &[u8], b: u8) -> (r: usize)
    ensures
        r == first_index_of(s@, b),
{
    let mut i: usize = 0;
    while i < s.len() && s[i] != b
        invariant
            i <= s@.len(),
            forall|j: int| 0 <= j < i ==> s@[j] != b,
        decreases s@.len() - i,
    {
        i = i + 1;
    }
    proof {
        lemma_first_index_of_at(s@, b, i as int);
    }
    i
}


/// `s` with every `;` turned into `:` (a file system cannot name a file with `:`).
pub open spec fn replace_semicolons(s: Seq<u8>) -> Seq<u8> {
    s.map_values(|b: u8| if b == ';' as u8 { ':' as u8 } else { b })
}

/// Whether the regional marker of `s` can be cut out: where `s` holds a `+`,
/// it also holds a `.`, and its first `.` does not come before its first `+`.
pub open spec fn marker_removable(s: Seq<u8>) -> bool {
    first_index_of(s, '+' as u8) < s.len() ==> first_index_of(s, '+' as u8) <= first_index_of(s, '.' as u8) < s.len()
}

/// `s` without its regional marker: the bytes from its first `+` up to its first `.`.
pub open spec fn strip_region_marker(s: Seq<u8>) -> Seq<u8> {
    let m = first_index_of(s, '+' as u8);
    if m < s.len() {
        s.take(m) + s.skip(first_index_of(s, '.' as u8))
    } else {
        s
    }
}

pub open spec fn mp4_bytes() -> Seq<u8> {
    seq!['m' as u8, 'p' as u8, '4' as u8]
}

pub open spec fn webm_bytes() -> Seq<u8> {
    seq!['w' as u8, 'e' as u8, 'b' as u8, 'm' as u8]
}

/// `s` with a trailing `mp4` replaced by `webm`: videos are kept on disk as
/// `.mp4` and known to the archive as `.webm`.
pub open spec fn mp4_to_webm(s: Seq<u8>) -> Seq<u8> {
    if s.len() >= 3 && s.skip(s.len() - 3) == mp4_bytes() {
        s.take(s.len() - 3) + webm_bytes()
    } else {
        s
    }
}

/// The path the archive knows a file by, from the path of a mod file below the
/// mod's root: `;` for `:`, the regional marker cut out, `mp4` for `webm`.
pub open spec fn arc_path_of(s: Seq<u8>) -> Seq<u8> {
    mp4_to_webm(strip_region_marker(replace_semicolons(s)))
}

pub open spec fn has_no_semicolon(s: Seq<u8>) -> bool {
    forall|i: int| 0 <= i < s.len() ==> s[i] != ';' as u8
}

/// An archive path holds no `;`: every one was turned into `:`.
pub proof fn law_arc_path_has_no_semicolon(s: Seq<u8>)
    ensures
        has_no_semicolon(arc_path_of(s)),
{
    let r = replace_semicolons(s);
    assert(has_no_semicolon(r));
    let m = first_index_of(r, '+' as u8);
    let d = first_index_of(r, '.' as u8);
    lemma_first_index_of(r, '+' as u8);
    lemma_first_index_of(r, '.' as u8);
    let t = strip_region_marker(r);
    assert(has_no_semicolon(t)) by {
        if m < r.len() {
            assert forall|i: int| 0 <= i < t.len() implies t[i] != ';' as u8 by {
                if i < m {
                    assert(t[i] == r[i]);
                } else {
                    assert(t[i] == r[d + i - m]);
                }
            }
        }
    }
    let w = mp4_to_webm(t);
    assert(has_no_semicolon(w)) by {
        if t.len() >= 3 && t.skip(t.len() - 3) == mp4_bytes() {
            assert forall|i: int| 0 <= i < w.len() implies w[i] != ';' as u8 by {
                if i < t.len() - 3 {
                    assert(w[i] == t[i]);
                } else {
                    assert(w[i] == webm_bytes()[i - (t.len() - 3)]);
                }
            }
        }
    }
}

pub proof fn lemma_first_index_of_replaced(s: Seq<u8>, b: u8)
    requires
        b != ';' as u8,
        b != ':' as u8,
    ensures
        first_index_of(replace_semicolons(s), b) == first_index_of(s, b),
{
    let r = replace_semicolons(s);
    lemma_first_index_of(s, b);
    lemma_first_index_of(r, b);
    let i = first_index_of(s, b);
    assert forall|j: int| 0 <= j < i implies r[j] != b by {
        assert(s[j] != b);
    }
    lemma_first_index_of_at(r, b, i);
}

/// `s` with every `;` turned into `:`.
pub fn replace_semicolons_in(s: &[u8]) -> (r: Vec<u8>)
    ensures
        r@ == replace_semicolons(s@),
{
    let mut out: Vec<u8> = Vec::new();
    let mut i: usize = 0;
    while i < s.len()
        invariant
            i <= s@.len(),
            out@ == replace_semicolons(s@.take(i as int)),
        decreases s@.len() - i,
    {
        let b = s[i];
        if b == ';' as u8 {
            out.push(':' as u8);
        } else {
            out.push(b);
        }
        assert(s@.take(i + 1) == s@.take(i as int).push(b));
        i = i + 1;
    }
    assert(s@.take(s@.len() as int) == s@);
    out
}

/// The path the archive knows a file by, from its path below the mod's root.
pub fn arc_path_from(s: &[u8]) -> (r: Vec<u8>)
    requires
        marker_removable(s@),
    ensures
        r@ == arc_path_of(s@),
{
    let replaced = replace_semicolons_in(s);
    proof {
        lemma_first_index_of_replaced(s@, '+' as u8);
        lemma_first_index_of_replaced(s@, '.' as u8);
    }
    let m = find(replaced.as_slice(), '+' as u8);
    let stripped = if m < replaced.len() {
        let d = find(replaced.as_slice(), '.' as u8);
        let mut head = copy_range(replaced.as_slice(), 0, m);
        let mut tail = copy_range(replaced.as_slice(), d, replaced.len());
        head.append(&mut tail);
        head
    } else {
        replaced
    };
    let n = stripped.len();
    if n >= 3 && stripped[n - 3] == 'm' as u8 && stripped[n - 2] == 'p' as u8 && stripped[n - 1]
        == '4' as u8 {
        assert(stripped@.skip(n - 3) == mp4_bytes());
        let mut out = copy_range(stripped.as_slice(), 0, n - 3);
        out.push('w' as u8);
        out.push('e' as u8);
        out.push('b' as u8);
        out.push('m' as u8);
        assert(out@ == stripped@.take(n - 3) + webm_bytes());
        out
    } else {
        assert(!(n >= 3 && stripped@.skip(n - 3) == mp4_bytes())) by {
            if n >= 3 && stripped@.skip(n - 3) == mp4_bytes() {
                assert(stripped@.skip(n - 3)[0] == stripped@[n - 3]);
                assert(stripped@.skip(n - 3)[1] == stripped@[n - 2]);
                assert(stripped@.skip(n - 3)[2] == stripped@[n - 1]);
            }
        }
        stripped
    }
}

} // verus!
