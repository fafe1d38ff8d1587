//! Trust configuration: the repository to synchronise and the fingerprint of
//! the certificate that must have signed its index.
use vstd::prelude::*;
use vstd::string::*;
use crate::digest::{decode_hex_str, hex_text};
use crate::error::Error;
use crate::scheme::SigningScheme;
use crate::text::{chars_at, str_occurs_at};

verus! {

/// The default repository.
pub const FDROID_REPO: &'static str = "https://f-droid.org/repo";

/// The SHA-256 digest of the certificate that signs the default repository.
pub open spec fn default_fingerprint() -> Seq<u8> {
    seq![67u8, 35u8, 141u8, 81u8, 44u8, 30u8, 94u8, 178u8, 214u8, 86u8, 159u8, 74u8, 58u8, 251u8, 245u8, 82u8, 52u8, 24u8, 184u8, 46u8, 10u8, 62u8, 209u8, 85u8, 39u8, 112u8, 171u8, 185u8, 169u8, 201u8, 204u8, 171u8]
}

pub fn fdroid_index_fingerprint() -> (r: Vec<u8>)
    ensures
        r@ == default_fingerprint(),
{
    let r = vec![67u8, 35, 141, 81, 44, 30, 94, 178, 214, 86, 159, 74, 58, 251, 245, 82, 52, 24, 184, 46, 10, 62, 209, 85, 39, 112, 171, 185, 169, 201, 204, 171];
    assert(r@ =~= default_fingerprint());
    r
}

/// The repository to synchronise, and the digest of the certificate that
/// must have signed its index.
pub struct RepositoryRef {
    pub base_url: String,
    pub fingerprint: Vec<u8>,
    pub is_custom: bool,
}

/// The marker that separates a repository's address from its fingerprint.
pub open spec fn marker() -> Seq<char> {
    "?fingerprint="@
}

/// Whether `p` is the first position at which `lit` occurs in `s`.
pub open spec fn first_occurrence(s: Seq<char>, lit: Seq<char>, p: int) -> bool {
    chars_at(s, lit, p) && forall|q: int| 0 <= q < p ==> !chars_at(s, lit, q)
}

/// The address, fingerprint and customness that a repository option
/// configures: the default repository without an option; the option's text
/// up to the first marker and the hexadecimal fingerprint after it; or the
/// whole option with the default fingerprint. A fingerprint that is not
/// hexadecimal, or is empty, configures nothing.
pub open spec fn configured(option: Option<Seq<char>>) -> Option<(Seq<char>, Seq<u8>, bool)> {
    match option {
        None => Some((FDROID_REPO@, default_fingerprint(), false)),
        Some(s) => if exists|p: int| first_occurrence(s, marker(), p) {
            let p = choose|p: int| first_occurrence(s, marker(), p);
            match hex_text(s.subrange(p + marker().len(), s.len() as int)) {
                Some(f) => if f.len() > 0 {
                    Some((s.subrange(0, p), f, true))
                } else {
                    None
                },
                None => None,
            }
        } else {
            Some((s, default_fingerprint(), true))
        },
    }
}

fn find_first(s: &str, lit: &str) -> (r: Option<usize>)
    ensures
        match r {
            Some(p) => first_occurrence(s@, lit@, p as int),
            None => forall|p: int| !chars_at(s@, lit@, p),
        },
{
    let n = s.unicode_len();
    let mut p: usize = 0;
    while p < n
        invariant
            n == s@.len(),
            p <= n,
            forall|q: int| 0 <= q < p ==> !chars_at(s@, lit@, q),
        decreases n - p,
    {
        if str_occurs_at(s, lit, p) {
            return Some(p);
        }
        p = p + 1;
    }
    if str_occurs_at(s, lit, n) {
        return Some(n);
    }
    proof {
        assert forall|q: int| !chars_at(s@, lit@, q) by {
            if q > n {
                assert(!chars_at(s@, lit@, q));
            }
        }
    }
    None
}

/// Resolves the repository option into a repository reference; a fingerprint
/// that is not hexadecimal, or is empty, is a `ConfigError`.
pub fn resolve_repository(option: Option<&str>) -> (r: Result<RepositoryRef, Error>)
    ensures
        match r {
            Ok(x) => configured(
                match option {
                    Some(s) => Some(s@),
                    None => None,
                },
            ) == Some((x.base_url@, x.fingerprint@, x.is_custom)),
            Err(e) => e == Error::ConfigError && configured(
                match option {
                    Some(s) => Some(s@),
                    None => None,
                },
            ) is None,
        },
{
    match option {
        None => Ok(
            RepositoryRef {
                base_url: String::from_str(FDROID_REPO),
                fingerprint: fdroid_index_fingerprint(),
                is_custom: false,
            },
        ),
        Some(s) => match find_first(s, "?fingerprint=") {
            None => Ok(
                RepositoryRef {
                    base_url: String::from_str(s),
                    fingerprint: fdroid_index_fingerprint(),
                    is_custom: true,
                },
            ),
            Some(p) => {
                let n = s.unicode_len();
                let m = "?fingerprint=".unicode_len();
                let hex = s.substring_char(p + m, n);
                proof {
                    let c = choose|c: int| first_occurrence(s@, marker(), c);
                    if c < p {
                        assert(!chars_at(s@, marker(), c));
                    } else if c > p {
                        assert(!chars_at(s@, marker(), p as int));
                    }
                }
                match decode_hex_str(hex) {
                    Some(f) => {
                        if f.len() == 0 {
                            return Err(Error::ConfigError);
                        }
                        Ok(
                            RepositoryRef {
                                base_url: String::from_str(s.substring_char(0, p)),
                                fingerprint: f,
                                is_custom: true,
                            },
                        )
                    },
                    None => Err(Error::ConfigError),
                }
            },
        },
    }
}

/// Whether `s` reads `false` in any mix of cases.
pub open spec fn reads_false(s: Seq<char>) -> bool {
    s.len() == "false"@.len() && forall|i: int|
        0 <= i < s.len() ==> s[i] == "false"@[i] || s[i] == "FALSE"@[i]
}

/// Whether the `use_entry` option selects the two-level scheme: it does unless
/// it reads `0` or `false`, in any case.
pub open spec fn entry_selected(option: Option<Seq<char>>) -> bool {
    match option {
        Some(v) => !(v == "0"@ || reads_false(v)),
        None => true,
    }
}

/// The signing scheme that the `use_entry` option selects.
pub fn scheme_from_option(option: Option<&str>) -> (r: SigningScheme)
    ensures
        (r == SigningScheme::Entry) == entry_selected(
            match option {
                Some(s) => Some(s@),
                None => None,
            },
        ),
{
    match option {
        None => SigningScheme::Entry,
        Some(v) => {
            proof {
                reveal_strlit("false");
                reveal_strlit("FALSE");
                reveal_strlit("0");
            }
            let n = v.unicode_len();
            if n == 1 && v.get_char(0) == '0' {
                assert(v@ =~= "0"@);
                return SigningScheme::Legacy;
            }
            if n != 5 {
                return SigningScheme::Entry;
            }
            let lower = "false";
            let upper = "FALSE";
            let mut i: usize = 0;
            while i < 5
                invariant
                    option == Some(v),
                    n == v@.len(),
                    n == 5,
                    lower@ == "false"@,
                    upper@ == "FALSE"@,
                    lower@.len() == 5,
                    "0"@.len() == 1,
                    upper@.len() == 5,
                    i <= 5,
                    forall|j: int| 0 <= j < i ==> v@[j] == "false"@[j] || v@[j] == "FALSE"@[j],
                decreases 5 - i,
            {
                let c = v.get_char(i);
                if c != lower.get_char(i) && c != upper.get_char(i) {
                    assert(!reads_false(v@));
                    assert(v@ != "0"@);
                    return SigningScheme::Entry;
                }
                i = i + 1;
            }
            SigningScheme::Legacy
        },
    }
}

/// Whether the `verify-index` option leaves verification on: it does unless
/// it is exactly `false`.
pub fn verification_from_option(option: Option<&str>) -> (r: bool)
    ensures
        r == match option {
            Some(s) => s@ != "false"@,
            None => true,
        },
{
    match option {
        Some(s) => !crate::text::str_equal(s, "false"),
        None => true,
    }
}

} // verus!
