//! A path handed across the plugin boundary: a byte buffer and a length that
//! fits a byte.
use vstd::prelude::*;
use vstd::utf8::valid_utf8;

verus! {

/// A path as other plugins pass it: the bytes it points at (`None` for a null
/// pointer) and the number of them that belong to the path.
pub struct ArcPath {
    pub path: Option<Vec<u8>>,
    pub path_len: u8,
}

impl ArcPath {
    /// The length never reaches past the buffer.
    pub open spec fn wf(&self) -> bool {
        self.path matches Some(p) ==> self.path_len <= p@.len()
    }

    /// The bytes that make up the path, if the pointer is not null.
    pub open spec fn path_bytes(&self) -> Option<Seq<u8>> {
        match self.path {
            Some(p) => Some(p@.take(self.path_len as int)),
            None => None,
        }
    }

    /// Points at `filepath`; the length is that of `filepath`, cut to a byte.
    pub fn new(filepath: &[u8]) -> (r: Self)
        ensures
            r.wf(),
            r.path matches Some(p) && p@ == filepath@,
            r.path_len == filepath@.len() % 256,
    {
        let mut bytes: Vec<u8> = Vec::new();
        let mut i: usize = 0;
        while i < filepath.len()
            invariant
                i <= filepath@.len(),
                bytes@ == filepath@.take(i as int),
            decreases filepath@.len() - i,
        {
            bytes.push(filepath[i]);
            i = i + 1;
        }
        assert(filepath@.take(filepath@.len() as int) == filepath@);
        ArcPath { path: Some(bytes), path_len: (filepath.len() % 256) as u8 }
    }

    /// The path's bytes, or `None` for a null pointer. The bytes must be UTF-8:
    /// a path that is not cannot be read.
    pub fn path(&self) -> (r: Option<Vec<u8>>)
        requires
            self.wf(),
            self.path_bytes() matches Some(b) ==> valid_utf8(b),
        ensures
            match r {
                Some(b) => self.path_bytes() == Some(b@),
                None => self.path_bytes() is None,
            },
    {
        match &self.path {
            None => None,
            Some(p) => {
                let len = self.path_len as usize;
                let mut out: Vec<u8> = Vec::new();
                let mut i: usize = 0;
                while i < len
                    invariant
                        len <= p@.len(),
                        i <= len,
                        out@ == p@.take(i as int),
                    decreases len - i,
                {
                    out.push(p[i]);
                    i = i + 1;
                }
                Some(out)
            },
        }
    }
}

/// A path made from bytes is read back as those bytes, cut to the first
/// `len % 256` of them.
pub proof fn law_arc_path_round_trip(filepath: Seq<u8>, p: ArcPath)
    requires
        p.path matches Some(b) && b@ == filepath,
        p.path_len == filepath.len() % 256,
    ensures
        p.wf(),
        p.path_bytes() == Some(filepath.take((filepath.len() % 256) as int)),
        filepath.len() < 256 ==> p.path_bytes() == Some(filepath),
{
    assert(filepath.take(filepath.len() as int) == filepath);
}

} // verus!
