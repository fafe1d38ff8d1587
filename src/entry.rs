//! The two-level scheme: the signed entry descriptor names the index file and
//! its SHA-256 digest, and the index file is checked against it.
use vstd::prelude::*;
use crate::digest::{decode_hex_str, hex_text, sha256_digest, sha256_of};
use crate::error::Error;
use crate::json::{get, text_of, Json};
use crate::manifest::bytes_equal;
use crate::text::{strip_leading_slashes, trim_leading_slashes};

verus! {

/// The index file that an entry descriptor names.
pub struct IndexReference {
    /// Its path relative to the repository, without leading slashes.
    pub name: String,
    /// Its SHA-256 digest, in hexadecimal.
    pub sha256: String,
}

/// The `index.name` and `index.sha256` texts of an entry descriptor.
pub open spec fn entry_fields(entry: Json) -> Option<(Seq<char>, Seq<char>)> {
    match get(entry, "index"@) {
        Some(index) => match (text_of(get(index, "name"@)), text_of(get(index, "sha256"@))) {
            (Some(name), Some(sha)) => Some((trim_leading_slashes(name), sha)),
            _ => None,
        },
        None => None,
    }
}

/// The index file that a parsed entry descriptor names, or `SchemaError`
/// where a field is missing or not a string.
pub fn index_reference(entry: &Json) -> (r: Result<IndexReference, Error>)
    ensures
        match r {
            Ok(x) => entry_fields(*entry) == Some((x.name@, x.sha256@)),
            Err(e) => e == Error::SchemaError && entry_fields(*entry) is None,
        },
{
    let index = match entry.get("index") {
        Some(i) => i,
        None => return Err(Error::SchemaError),
    };
    let name = match index.get("name") {
        Some(n) => match n.as_str() {
            Some(s) => s,
            None => return Err(Error::SchemaError),
        },
        None => return Err(Error::SchemaError),
    };
    let sha256 = match index.get("sha256") {
        Some(h) => match h.as_str() {
            Some(s) => s,
            None => return Err(Error::SchemaError),
        },
        None => return Err(Error::SchemaError),
    };
    Ok(IndexReference { name: strip_leading_slashes(name.as_str()), sha256: sha256.clone() })
}

/// The outcome of checking the downloaded index file `data` against the
/// digest `sha` that the entry descriptor declares: text that is not
/// hexadecimal is a `SchemaError`, a different digest a `DigestError`.
pub open spec fn index_file_outcome(sha: Seq<char>, data: Seq<u8>, verify: bool) -> Result<
    Seq<u8>,
    Error,
> {
    if !verify {
        Ok(data)
    } else {
        match hex_text(sha) {
            None => Err(Error::SchemaError),
            Some(d) => if d == sha256_of(data) {
                Ok(data)
            } else {
                Err(Error::DigestError)
            },
        }
    }
}

/// Checks the downloaded index file against the entry descriptor.
pub fn check_index_file(reference: &IndexReference, data: Vec<u8>, verify: bool) -> (r: Result<
    Vec<u8>,
    Error,
>)
    ensures
        match r {
            Ok(v) => index_file_outcome(reference.sha256@, data@, verify) == Ok::<Seq<u8>, Error>(
                v@,
            ),
            Err(e) => index_file_outcome(reference.sha256@, data@, verify) == Err::<Seq<u8>, Error>(
                e,
            ),
        },
{
    if !verify {
        return Ok(data);
    }
    let declared = match decode_hex_str(reference.sha256.as_str()) {
        Some(d) => d,
        None => return Err(Error::SchemaError),
    };
    let actual = sha256_digest(data.as_slice());
    if bytes_equal(&declared, &actual) {
        Ok(data)
    } else {
        Err(Error::DigestError)
    }
}

/// An index file whose SHA-256 digest is the one the entry descriptor declares
/// passes the check unchanged; one with another digest fails with
/// `DigestError`.
pub proof fn lemma_index_file_checked(sha: Seq<char>, data: Seq<u8>)
    requires
        hex_text(sha) is Some,
    ensures
        hex_text(sha) == Some(sha256_of(data)) ==> index_file_outcome(sha, data, true) == Ok::<
            Seq<u8>,
            Error,
        >(data),
        hex_text(sha) != Some(sha256_of(data)) ==> index_file_outcome(sha, data, true) == Err::<
            Seq<u8>,
            Error,
        >(Error::DigestError),
{
}

} // verus!
