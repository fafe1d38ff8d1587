//! Fields of the signed file and of the manifest, in the line format of JAR
//! signing, and the digest chain that links them to the signed JSON file.
use vstd::prelude::*;
use crate::digest::{base64_decode, base64_decoded};
use crate::error::Error;
use crate::scheme::SigningScheme;

verus! {

/// Whether `p` occurs in `t` at position `i`.
pub open spec fn occurs_at(t: Seq<u8>, p: Seq<u8>, i: int) -> bool {
    0 <= i && i + p.len() <= t.len() && t.subrange(i, i + p.len()) == p
}

/// Whether position `k` of `t` holds the first line feed at or after `s`,
/// preceded by a carriage return that is itself at or after `s`.
pub open spec fn line_ends_at(t: Seq<u8>, s: int, k: int) -> bool {
    s < k && k < t.len() && t[k] == 10u8 && t[k - 1] == 13u8 && forall|j: int|
        s <= j < k ==> t[j] != 10u8
}

/// Whether a field `p` starts at `i` and its line ends at `k`: the text
/// `p`, then a value without line feed, then CR LF.
pub open spec fn field_line(t: Seq<u8>, p: Seq<u8>, i: int, k: int) -> bool {
    occurs_at(t, p, i) && line_ends_at(t, i + p.len(), k)
}

pub open spec fn field_starts_at(t: Seq<u8>, p: Seq<u8>, i: int) -> bool {
    exists|k: int| field_line(t, p, i, k)
}

/// Whether `i` is the first position at which a field `p` starts.
pub open spec fn first_field_at(t: Seq<u8>, p: Seq<u8>, i: int) -> bool {
    field_starts_at(t, p, i) && forall|j: int| 0 <= j < i ==> !field_starts_at(t, p, j)
}

/// The value of the first complete line of `t` that starts with `p`: the bytes
/// after `p` up to the CR LF that ends the line. `p` itself begins with CR LF,
/// so a field is only found after a line break.
pub open spec fn field_value(t: Seq<u8>, p: Seq<u8>) -> Option<Seq<u8>> {
    if exists|i: int| first_field_at(t, p, i) {
        let i = choose|i: int| first_field_at(t, p, i);
        let k = choose|k: int| field_line(t, p, i, k);
        Some(t.subrange(i + p.len(), k - 1))
    } else {
        None
    }
}

proof fn lemma_line_end_unique(t: Seq<u8>, s: int, k1: int, k2: int)
    requires
        line_ends_at(t, s, k1),
        line_ends_at(t, s, k2),
    ensures
        k1 == k2,
{
    if k1 < k2 {
        assert(t[k1] != 10u8);
    } else if k2 < k1 {
        assert(t[k2] != 10u8);
    }
}

proof fn lemma_first_field_unique(t: Seq<u8>, p: Seq<u8>, i1: int, i2: int)
    requires
        first_field_at(t, p, i1),
        first_field_at(t, p, i2),
    ensures
        i1 == i2,
{
    if i1 < i2 {
        assert(!field_starts_at(t, p, i1));
    } else if i2 < i1 {
        assert(!field_starts_at(t, p, i2));
    }
}

/// Whether `p` occurs in `t` at `i`.
fn occurs_at_exec(t: &[u8], p: &[u8], i: usize) -> (r: bool)
    ensures
        r == occurs_at(t@, p@, i as int),
{
    if i > t.len() || p.len() > t.len() - i {
        return false;
    }
    let n = t.len();
    let mut j: usize = 0;
    while j < p.len()
        invariant
            n == t@.len(),
            i + p@.len() <= t@.len(),
            j <= p@.len(),
            forall|m: int| 0 <= m < j ==> t@[i + m] == p@[m],
        decreases p@.len() - j,
    {
        if t[i + j] != p[j] {
            assert(t@.subrange(i as int, i + p@.len())[j as int] != p@[j as int]);
            return false;
        }
        j = j + 1;
    }
    assert(t@.subrange(i as int, i + p@.len()) =~= p@);
    true
}

/// The value of the first line of `t` that starts with the field `p`.
pub fn find_field(t: &[u8], p: &[u8]) -> (r: Option<Vec<u8>>)
    ensures
        match r {
            Some(v) => field_value(t@, p@) == Some(v@),
            None => field_value(t@, p@) is None,
        },
{
    let mut i: usize = 0;
    while i < t.len()
        invariant
            i <= t@.len(),
            forall|j: int| 0 <= j < i ==> !field_starts_at(t@, p@, j),
        decreases t@.len() - i,
    {
        if occurs_at_exec(t, p, i) {
            let s = i + p.len();
            let mut k = s;
            while k < t.len() && t[k] != 10u8
                invariant
                    s <= k <= t@.len(),
                    forall|j: int| s <= j < k ==> t@[j] != 10u8,
                decreases t@.len() - k,
            {
                k = k + 1;
            }
            if k < t.len() && k > s && t[k - 1] == 13u8 {
                assert(field_line(t@, p@, i as int, k as int));
                assert(first_field_at(t@, p@, i as int));
                let v = vstd::slice::slice_to_vec(vstd::slice::slice_subrange(t, s, k - 1));
                proof {
                    let ci = choose|ci: int| first_field_at(t@, p@, ci);
                    lemma_first_field_unique(t@, p@, ci, i as int);
                    let ck = choose|ck: int| field_line(t@, p@, ci, ck);
                    lemma_line_end_unique(t@, s as int, ck, k as int);
                    assert(v@ =~= t@.subrange(s as int, k - 1));
                }
                return Some(v);
            }
            assert forall|k2: int| !field_line(t@, p@, i as int, k2) by {
                if field_line(t@, p@, i as int, k2) {
                    if k2 < k {
                        assert(t@[k2] != 10u8);
                    } else if k2 > k {
                        assert(t@[k as int] != 10u8);
                    }
                }
            }
        }
        i = i + 1;
    }
    proof {
        assert forall|i2: int| !first_field_at(t@, p@, i2) by {
            if first_field_at(t@, p@, i2) {
                let k2 = choose|k2: int| field_line(t@, p@, i2, k2);
                assert(i2 < t@.len());
            }
        }
    }
    None
}

/// The digest that field `p` of `t` declares, decoded from base64.
pub open spec fn declared_digest(t: Seq<u8>, p: Seq<u8>) -> Option<Seq<u8>> {
    match field_value(t, p) {
        Some(v) => base64_decoded(v),
        None => None,
    }
}

/// Whether the field `p` of `t` declares exactly the digest `d`.
pub open spec fn declares_digest(t: Seq<u8>, p: Seq<u8>, d: Seq<u8>) -> bool {
    declared_digest(t, p) == Some(d)
}

/// Checks that field `p` of `t` declares the digest `actual`.
pub fn check_declared_digest(t: &[u8], p: &[u8], actual: &Vec<u8>) -> (r: Result<(), Error>)
    ensures
        r is Ok <==> declares_digest(t@, p@, actual@),
        r is Err ==> r == Err::<(), Error>(Error::DigestError),
{
    match find_field(t, p) {
        None => Err(Error::DigestError),
        Some(v) => match base64_decode(v.as_slice()) {
            None => Err(Error::DigestError),
            Some(d) => {
                if bytes_equal(&d, actual) {
                    Ok(())
                } else {
                    Err(Error::DigestError)
                }
            },
        },
    }
}

/// Whether two byte strings are equal.
pub fn bytes_equal(a: &Vec<u8>, b: &Vec<u8>) -> (r: bool)
    ensures
        r == (a@ == b@),
{
    if a.len() != b.len() {
        return false;
    }
    let mut i: usize = 0;
    while i < a.len()
        invariant
            a@.len() == b@.len(),
            i <= a@.len(),
            forall|j: int| 0 <= j < i ==> a@[j] == b@[j],
        decreases a@.len() - i,
    {
        if a[i] != b[i] {
            return false;
        }
        i = i + 1;
    }
    assert(a@ =~= b@);
    true
}

/// Whether the signed file declares the digest of the manifest, under `scheme`.
pub open spec fn manifest_matches(scheme: SigningScheme, signed: Seq<u8>, manifest: Seq<u8>) -> bool {
    declares_digest(signed, scheme.manifest_field(), scheme.digest_of(manifest))
}

/// Whether the manifest declares the digest of the signed JSON file.
pub open spec fn payload_matches(scheme: SigningScheme, manifest: Seq<u8>, payload: Seq<u8>) -> bool {
    declares_digest(manifest, scheme.payload_field(), scheme.digest_of(payload))
}

/// Checks that the signed file declares the manifest's digest.
pub fn check_manifest_digest(scheme: SigningScheme, signed: &[u8], manifest: &[u8]) -> (r: Result<(), Error>)
    ensures
        r is Ok <==> manifest_matches(scheme, signed@, manifest@),
        r is Err ==> r == Err::<(), Error>(Error::DigestError),
{
    let field = scheme.manifest_field_bytes();
    let actual = scheme.digest(manifest);
    check_declared_digest(signed, field.as_slice(), &actual)
}

/// Checks that the manifest declares the signed JSON file's digest.
pub fn check_payload_digest(scheme: SigningScheme, manifest: &[u8], payload: &[u8]) -> (r: Result<(), Error>)
    ensures
        r is Ok <==> payload_matches(scheme, manifest@, payload@),
        r is Err ==> r == Err::<(), Error>(Error::DigestError),
{
    let field = scheme.payload_field_bytes();
    let actual = scheme.digest(payload);
    check_declared_digest(manifest, field.as_slice(), &actual)
}

} // verus!
