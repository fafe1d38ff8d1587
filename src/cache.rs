//! Where the cache of one repository lies, relative to the application's
//! configuration directory.
use vstd::prelude::*;
use vstd::string::*;
use crate::config::RepositoryRef;
use crate::digest::{sha256_digest, sha256_of};
use crate::text::push_char;

verus! {

/// The lower-case hexadecimal digit of a value below 16.
pub open spec fn hex_digit(n: u8) -> char {
    "0123456789abcdef"@[n as int]
}

/// Two lower-case hexadecimal digits for each byte, high digit first.
pub open spec fn hex_encoded(b: Seq<u8>) -> Seq<char> {
    Seq::new(
        2 * b.len(),
        |i: int| if i % 2 == 0 { hex_digit(b[i / 2] / 16) } else { hex_digit(b[i / 2] % 16) },
    )
}

/// The bytes in lower-case hexadecimal.
pub fn hex_encode(b: &[u8]) -> (r: String)
    ensures
        r@ == hex_encoded(b@),
{
    proof {
        reveal_strlit("0123456789abcdef");
    }
    let digits = "0123456789abcdef";
    let mut r = String::new();
    let mut i: usize = 0;
    while i < b.len()
        invariant
            digits@ == "0123456789abcdef"@,
            digits@.len() == 16,
            i <= b@.len(),
            r@ =~= hex_encoded(b@.subrange(0, i as int)),
        decreases b@.len() - i,
    {
        let ghost before = r@;
        push_char(&mut r, digits.get_char((b[i] / 16) as usize));
        push_char(&mut r, digits.get_char((b[i] % 16) as usize));
        proof {
            let next = hex_encoded(b@.subrange(0, i + 1));
            assert forall|k: int| 0 <= k < next.len() implies r@[k] == next[k] by {
                if k < 2 * i {
                    assert(b@.subrange(0, i + 1)[k / 2] == b@.subrange(0, i as int)[k / 2]);
                }
            }
            assert(r@ =~= next);
        }
        i = i + 1;
    }
    assert(b@.subrange(0, b@.len() as int) =~= b@);
    r
}

/// The directory under the configuration directory that holds the caches of
/// custom repositories.
pub open spec fn custom_repos_dir() -> Seq<char> {
    "fdroid-custom-repos"@
}

/// The name of a custom repository's cache directory: the SHA-256 digest of
/// its address's UTF-8 bytes, in hexadecimal, so that distinct addresses do
/// not share a cache.
pub open spec fn repo_key(base_url: Seq<char>) -> Seq<char> {
    hex_encoded(sha256_of(vstd::utf8::encode_utf8(base_url)))
}

/// The directories, one inside the other, that lead from the application's
/// configuration directory to the cache of a repository: none for the
/// default repository, and one named by its address for a custom one.
pub open spec fn cache_dirs(base_url: Seq<char>, is_custom: bool) -> Seq<Seq<char>> {
    if is_custom {
        seq![custom_repos_dir(), repo_key(base_url)]
    } else {
        seq![]
    }
}

/// The directories that lead to the cache of `repo`.
pub fn cache_location(repo: &RepositoryRef) -> (r: Vec<String>)
    ensures
        r@.map_values(|s: String| s@) == cache_dirs(repo.base_url@, repo.is_custom),
{
    let mut r: Vec<String> = Vec::new();
    if repo.is_custom {
        r.push(String::from_str("fdroid-custom-repos"));
        let bytes = repo.base_url.as_str().as_bytes();
        r.push(hex_encode(&sha256_digest(bytes)));
    }
    assert(r@.map_values(|s: String| s@) =~= cache_dirs(repo.base_url@, repo.is_custom));
    r
}

} // verus!
