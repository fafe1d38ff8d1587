//! The members of an extracted index archive, and the names of the files
//! that JAR signing puts in it.
use vstd::prelude::*;
use vstd::string::*;
use crate::error::Error;
use crate::text::{chars_at, no_line_feed_from, str_equal, str_no_line_feed_from, str_occurs_at};

verus! {

/// One file extracted from an archive: its relative path and its bytes.
pub struct ArchiveEntry {
    pub path: String,
    pub data: Vec<u8>,
}

/// The files extracted from an archive, in archive order. A path may occur
/// more than once; the last occurrence is the one that extraction leaves.
pub struct Archive {
    pub entries: Vec<ArchiveEntry>,
}

impl View for Archive {
    type V = Seq<(Seq<char>, Seq<u8>)>;

    open spec fn view(&self) -> Seq<(Seq<char>, Seq<u8>)> {
        self.entries@.map_values(|e: ArchiveEntry| (e.path@, e.data@))
    }
}

/// Whether `i` is the last position of `a` whose path is `path`.
pub open spec fn last_at(a: Seq<(Seq<char>, Seq<u8>)>, path: Seq<char>, i: int) -> bool {
    0 <= i < a.len() && a[i].0 == path && forall|j: int| i < j < a.len() ==> a[j].0 != path
}

/// The bytes of the file at `path`, as extraction leaves them.
pub open spec fn member(a: Seq<(Seq<char>, Seq<u8>)>, path: Seq<char>) -> Option<Seq<u8>> {
    if exists|i: int| last_at(a, path, i) {
        Some(a[choose|i: int| last_at(a, path, i)].1)
    } else {
        None
    }
}

pub proof fn lemma_last_at_unique(a: Seq<(Seq<char>, Seq<u8>)>, path: Seq<char>, i: int, j: int)
    requires
        last_at(a, path, i),
        last_at(a, path, j),
    ensures
        i == j,
{
}

/// The directory that holds the signing files.
pub open spec fn meta_inf() -> Seq<char> {
    "META-INF/"@
}

/// The path of the manifest.
pub open spec fn manifest_path() -> Seq<char> {
    "META-INF/MANIFEST.MF"@
}

/// Whether `s` ends with `suffix`, with the signing directory before it.
pub open spec fn block_suffix(s: Seq<char>, suffix: Seq<char>) -> bool {
    meta_inf().len() + suffix.len() <= s.len() && chars_at(s, suffix, s.len() - suffix.len())
}

/// Whether `s` names a signature block: `META-INF/`, then any characters but a
/// line feed, then `.DSA`, `.EC` or `.RSA` at the very end.
pub open spec fn is_signature_block_name(s: Seq<char>) -> bool {
    chars_at(s, meta_inf(), 0) && no_line_feed_from(s, meta_inf().len() as int) && (block_suffix(
        s,
        ".DSA"@,
    ) || block_suffix(s, ".EC"@) || block_suffix(s, ".RSA"@))
}

/// The length of the extension, dot included, of a signature block's name.
pub open spec fn block_suffix_len(s: Seq<char>) -> int {
    if block_suffix(s, ".DSA"@) {
        ".DSA"@.len() as int
    } else if block_suffix(s, ".EC"@) {
        ".EC"@.len() as int
    } else {
        ".RSA"@.len() as int
    }
}

/// The signed file that belongs to a signature block: the block's extension
/// replaced by `SF`. A file name that is nothing but the extension has no
/// extension to replace, and `.SF` is appended to it.
pub open spec fn signed_file_name_of(s: Seq<char>) -> Seq<char> {
    let dot = s.len() - block_suffix_len(s);
    if s[dot - 1] == '/' {
        s + ".SF"@
    } else {
        s.subrange(0, dot) + ".SF"@
    }
}

/// Whether `i` is the position of the one signature block of `a`.
pub open spec fn sole_block_at(a: Seq<(Seq<char>, Seq<u8>)>, i: int) -> bool {
    0 <= i < a.len() && is_signature_block_name(a[i].0) && forall|j: int|
        0 <= j < a.len() && is_signature_block_name(#[trigger] a[j].0) ==> j == i
}

pub open spec fn has_sole_block(a: Seq<(Seq<char>, Seq<u8>)>) -> bool {
    exists|i: int| sole_block_at(a, i)
}

/// The position of the one signature block of `a`.
pub open spec fn sole_block(a: Seq<(Seq<char>, Seq<u8>)>) -> int {
    choose|i: int| sole_block_at(a, i)
}

/// Whether `name` names a signature block.
pub fn is_signature_block(name: &str) -> (r: bool)
    ensures
        r == is_signature_block_name(name@),
{
    let n = name.unicode_len();
    let m = "META-INF/".unicode_len();
    if !str_occurs_at(name, "META-INF/", 0) || !str_no_line_feed_from(name, m) {
        return false;
    }
    has_block_suffix(name, ".DSA") || has_block_suffix(name, ".EC") || has_block_suffix(name, ".RSA")
}

fn has_block_suffix(name: &str, suffix: &str) -> (r: bool)
    ensures
        r == block_suffix(name@, suffix@),
{
    let n = name.unicode_len();
    let m = "META-INF/".unicode_len();
    let e = suffix.unicode_len();
    if m > n || e > n - m {
        return false;
    }
    str_occurs_at(name, suffix, n - e)
}

/// The name of the signed file that belongs to the signature block `name`.
pub fn signed_file_name(name: &str) -> (r: String)
    requires
        is_signature_block_name(name@),
    ensures
        r@ == signed_file_name_of(name@),
{
    proof {
        reveal_strlit("META-INF/");
    }
    let n = name.unicode_len();
    let e = if has_block_suffix(name, ".DSA") {
        ".DSA".unicode_len()
    } else if has_block_suffix(name, ".EC") {
        ".EC".unicode_len()
    } else {
        ".RSA".unicode_len()
    };
    let dot = n - e;
    if name.get_char(dot - 1) == '/' {
        String::from_str(name).concat(".SF")
    } else {
        String::from_str(name.substring_char(0, dot)).concat(".SF")
    }
}

impl Archive {
    /// The position of the last member at `path`.
    pub fn find_last(&self, path: &str) -> (r: Option<usize>)
        ensures
            match r {
                Some(i) => last_at(self@, path@, i as int),
                None => forall|i: int| !last_at(self@, path@, i),
            },
    {
        let mut i = self.entries.len();
        while i > 0
            invariant
                i <= self@.len(),
                self@.len() == self.entries@.len(),
                forall|j: int| i <= j < self@.len() ==> self@[j].0 != path@,
            decreases i,
        {
            let k = i - 1;
            if str_equal(self.entries[k].path.as_str(), path) {
                return Some(k);
            }
            i = k;
        }
        None
    }

    /// The bytes of the member at `path`, if there is one.
    pub fn member(&self, path: &str) -> (r: Option<&Vec<u8>>)
        ensures
            match r {
                Some(v) => member(self@, path@) == Some(v@),
                None => member(self@, path@) is None,
            },
    {
        match self.find_last(path) {
            Some(i) => {
                proof {
                    let c = choose|c: int| last_at(self@, path@, c);
                    lemma_last_at_unique(self@, path@, c, i as int);
                }
                Some(&self.entries[i].data)
            },
            None => None,
        }
    }

    /// The position of the one signature block, or `CertificateError` where
    /// the archive holds none or several.
    pub fn locate_signature_block(&self) -> (r: Result<usize, Error>)
        ensures
            match r {
                Ok(i) => sole_block_at(self@, i as int),
                Err(e) => e == Error::CertificateError && !has_sole_block(self@),
            },
    {
        let mut found: Option<usize> = None;
        let mut i: usize = 0;
        while i < self.entries.len()
            invariant
                i <= self@.len(),
                self@.len() == self.entries@.len(),
                match found {
                    Some(f) => f < i && is_signature_block_name(self@[f as int].0) && forall|j: int|
                        0 <= j < i && is_signature_block_name(#[trigger] self@[j].0) ==> j == f,
                    None => forall|j: int|
                        0 <= j < i ==> !is_signature_block_name(#[trigger] self@[j].0),
                },
            decreases self@.len() - i,
        {
            if is_signature_block(self.entries[i].path.as_str()) {
                if let Some(f) = found {
                    proof {
                        assert forall|c: int| !sole_block_at(self@, c) by {
                            if sole_block_at(self@, c) {
                                assert(is_signature_block_name(self@[f as int].0));
                                assert(is_signature_block_name(self@[i as int].0));
                            }
                        }
                    }
                    return Err(Error::CertificateError);
                }
                found = Some(i);
            }
            i = i + 1;
        }
        match found {
            Some(f) => Ok(f),
            None => {
                proof {
                    assert forall|c: int| !sole_block_at(self@, c) by {
                        if sole_block_at(self@, c) {
                            assert(is_signature_block_name(self@[c].0));
                        }
                    }
                }
                Err(Error::CertificateError)
            },
        }
    }
}

} // verus!
