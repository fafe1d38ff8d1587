//! Verification of an extracted index archive: the signature block, the
//! signer's trust, and the digest chain from the signed file to the signed
//! JSON file.
use vstd::prelude::*;
use crate::archive::{
    has_sole_block, last_at, meta_inf, lemma_last_at_unique, is_signature_block_name, manifest_path, member, signed_file_name,
    signed_file_name_of, sole_block, sole_block_at, Archive,
};
use crate::error::Error;
use crate::manifest::{check_manifest_digest, check_payload_digest, manifest_matches, payload_matches};
use crate::scheme::SigningScheme;
use crate::signature::{
    block_facts, check_signer, inspect_signature_block, signature_sound, signer_outcome,
    unchecked_facts, unchecked_report, SignerFacts, SignerReport, cms_certificate_count,
    cms_certificate_der, cms_signature_verifies, cms_signer_count,
};
use crate::digest::ring_sha256_of;
use crate::text::chars_at;

verus! {

/// The path of the signed JSON file inside the archive.
pub open spec fn payload_path(scheme: SigningScheme) -> Seq<char> {
    scheme.payload_path()
}

/// The outcome of verifying archive `a` under `scheme`, where its signature
/// block showed `f`. With `verify` on, checks run in this order: one signature
/// block, its signed file, the signer, the manifest's digest, the signed JSON
/// file's digest. With `verify` off all of them are skipped, and the signed
/// JSON file is taken as it is.
pub open spec fn archive_outcome_with(
    a: Seq<(Seq<char>, Seq<u8>)>,
    f: SignerFacts,
    fingerprint: Seq<u8>,
    verify: bool,
    scheme: SigningScheme,
) -> Result<Seq<u8>, Error> {
    if !verify {
        match member(a, payload_path(scheme)) {
            None => Err(Error::ArchiveError),
            Some(payload) => Ok(payload),
        }
    } else if !has_sole_block(a) {
        Err(Error::CertificateError)
    } else {
        match member(a, signed_file_name_of(a[sole_block(a)].0)) {
            None => Err(Error::ArchiveError),
            Some(signed) => if signer_outcome(f, fingerprint) is Err {
                Err(signer_outcome(f, fingerprint)->Err_0)
            } else {
                match member(a, manifest_path()) {
                    None => Err(Error::ArchiveError),
                    Some(manifest) => if !manifest_matches(scheme, signed, manifest) {
                        Err(Error::DigestError)
                    } else {
                        match member(a, payload_path(scheme)) {
                            None => Err(Error::ArchiveError),
                            Some(payload) => if !payload_matches(scheme, manifest, payload) {
                                Err(Error::DigestError)
                            } else {
                                Ok(payload)
                            },
                        }
                    },
                }
            },
        }
    }
}

/// The signed file that belongs to the archive's one signature block.
pub open spec fn archive_signed_file(a: Seq<(Seq<char>, Seq<u8>)>) -> Option<Seq<u8>> {
    if has_sole_block(a) {
        member(a, signed_file_name_of(a[sole_block(a)].0))
    } else {
        None
    }
}

/// What the archive's one signature block shows of its signed file.
pub open spec fn archive_facts(a: Seq<(Seq<char>, Seq<u8>)>) -> SignerFacts {
    match archive_signed_file(a) {
        Some(signed) => block_facts(a[sole_block(a)].1, signed),
        None => unchecked_facts(),
    }
}

/// The outcome of verifying archive `a` under `scheme`.
pub open spec fn archive_outcome(
    a: Seq<(Seq<char>, Seq<u8>)>,
    fingerprint: Seq<u8>,
    verify: bool,
    scheme: SigningScheme,
) -> Result<Seq<u8>, Error> {
    archive_outcome_with(a, archive_facts(a), fingerprint, verify, scheme)
}

pub open spec fn same_outcome(r: Result<Vec<u8>, Error>, o: Result<Seq<u8>, Error>) -> bool {
    match r {
        Ok(v) => o == Ok::<Seq<u8>, Error>(v@),
        Err(e) => o == Err::<Seq<u8>, Error>(e),
    }
}

/// Verifies archive `a` given what its signature block showed.
pub fn verify_archive_with(
    a: &Archive,
    report: &SignerReport,
    fingerprint: &Vec<u8>,
    verify: bool,
    scheme: SigningScheme,
) -> (r: Result<Vec<u8>, Error>)
    ensures
        same_outcome(r, archive_outcome_with(a@, report@, fingerprint@, verify, scheme)),
{
    if !verify {
        return match a.member(scheme.payload_name()) {
            Some(p) => Ok(p.clone()),
            None => Err(Error::ArchiveError),
        };
    }
    let b = match a.locate_signature_block() {
        Ok(b) => b,
        Err(e) => return Err(e),
    };
    assert(a@[b as int].0 == a.entries@[b as int].path@);
    proof {
        lemma_sole_block_is(a@, b as int);
    }
    let signed_name = signed_file_name(a.entries[b].path.as_str());
    let signed = match a.member(signed_name.as_str()) {
        Some(s) => s,
        None => return Err(Error::ArchiveError),
    };
    match check_signer(report, fingerprint) {
        Ok(()) => {},
        Err(e) => return Err(e),
    }
    let manifest = match a.member("META-INF/MANIFEST.MF") {
        Some(m) => m,
        None => return Err(Error::ArchiveError),
    };
    match check_manifest_digest(scheme, signed.as_slice(), manifest.as_slice()) {
        Ok(()) => {},
        Err(e) => return Err(e),
    }
    let payload = match a.member(scheme.payload_name()) {
        Some(p) => p,
        None => return Err(Error::ArchiveError),
    };
    match check_payload_digest(scheme, manifest.as_slice(), payload.as_slice()) {
        Ok(()) => {},
        Err(e) => return Err(e),
    }
    Ok(payload.clone())
}

/// The position of the one signature block is `sole_block`.
pub proof fn lemma_sole_block_is(a: Seq<(Seq<char>, Seq<u8>)>, b: int)
    requires
        sole_block_at(a, b),
    ensures
        has_sole_block(a),
        sole_block(a) == b,
{
    let c = sole_block(a);
    assert(sole_block_at(a, c));
    assert(is_signature_block_name(a[b].0));
}

/// Verifies an extracted archive and returns the signed JSON file. Where
/// `verify` is on, the signature block is parsed and its signature checked
/// over the signed file.
pub fn verify_and_return_json(
    a: &Archive,
    fingerprint: &Vec<u8>,
    verify: bool,
    scheme: SigningScheme,
) -> (r: Result<Vec<u8>, Error>)
    ensures
        same_outcome(r, archive_outcome(a@, fingerprint@, verify, scheme)),
{
    let report = if verify {
        match a.locate_signature_block() {
            Err(_) => unchecked_report(),
            Ok(b) => {
                assert(a@[b as int].0 == a.entries@[b as int].path@);
                assert(a@[b as int].1 == a.entries@[b as int].data@);
                proof {
                    lemma_sole_block_is(a@, b as int);
                }
                let signed_name = signed_file_name(a.entries[b].path.as_str());
                match a.member(signed_name.as_str()) {
                    None => unchecked_report(),
                    Some(signed) => inspect_signature_block(
                        a.entries[b].data.as_slice(),
                        signed.as_slice(),
                    ),
                }
            },
        }
    } else {
        unchecked_report()
    };
    let r = verify_archive_with(a, &report, fingerprint, verify, scheme);
    assert(same_outcome(r, archive_outcome(a@, fingerprint@, verify, scheme)));
    r
}

/// Replacing the bytes of the last member at a path changes what is read at
/// that path and nothing else.
pub proof fn lemma_replace_member(a: Seq<(Seq<char>, Seq<u8>)>, i: int, d: Seq<u8>)
    requires
        last_at(a, a[i].0, i),
    ensures
        forall|q: Seq<char>|
            #[trigger] member(a.update(i, (a[i].0, d)), q) == if q == a[i].0 {
                Some(d)
            } else {
                member(a, q)
            },
        forall|c: int| #[trigger] sole_block_at(a.update(i, (a[i].0, d)), c) == sole_block_at(a, c),
        has_sole_block(a.update(i, (a[i].0, d))) == has_sole_block(a),
{
    let b = a.update(i, (a[i].0, d));
    assert forall|j: int| 0 <= j < a.len() implies #[trigger] b[j].0 == a[j].0 by {}
    assert forall|q: Seq<char>, j: int| #[trigger] last_at(b, q, j) == last_at(a, q, j) by {
        if last_at(a, q, j) {
            assert forall|k: int| j < k < b.len() implies b[k].0 != q by {
                assert(a[k].0 != q);
            }
        }
        if last_at(b, q, j) {
            assert forall|k: int| j < k < a.len() implies a[k].0 != q by {
                assert(b[k].0 != q);
            }
        }
    }
    assert forall|q: Seq<char>|
        #[trigger] member(b, q) == if q == a[i].0 {
            Some(d)
        } else {
            member(a, q)
        } by {
        if exists|j: int| last_at(a, q, j) {
            let j1 = choose|j: int| last_at(a, q, j);
            assert(last_at(b, q, j1));
            let j2 = choose|j: int| last_at(b, q, j);
            lemma_last_at_unique(a, q, j1, j2);
            if q == a[i].0 {
                lemma_last_at_unique(a, q, j1, i);
            }
        } else {
            assert forall|j: int| !last_at(b, q, j) by {
                assert(last_at(b, q, j) == last_at(a, q, j));
            }
            if q == a[i].0 {
                assert(last_at(a, q, i));
            }
        }
    }
    assert forall|c: int| #[trigger] sole_block_at(b, c) == sole_block_at(a, c) by {
        if sole_block_at(a, c) {
            assert forall|j: int| 0 <= j < b.len() && is_signature_block_name(#[trigger] b[j].0) implies j == c by {
                assert(b[j].0 == a[j].0);
            }
        }
        if sole_block_at(b, c) {
            assert forall|j: int| 0 <= j < a.len() && is_signature_block_name(#[trigger] a[j].0) implies j == c by {
                assert(b[j].0 == a[j].0);
            }
        }
    }
    if has_sole_block(a) {
        let c = choose|c: int| sole_block_at(a, c);
        assert(sole_block_at(b, c));
    }
    if has_sole_block(b) {
        let c = choose|c: int| sole_block_at(b, c);
        assert(sole_block_at(a, c));
    }
}

/// The signed file, the manifest and the signed JSON file lie at three
/// distinct paths.
pub proof fn lemma_paths_distinct(s: Seq<char>, scheme: SigningScheme)
    ensures
        signed_file_name_of(s) != manifest_path(),
        signed_file_name_of(s) != payload_path(scheme),
        manifest_path() != payload_path(scheme),
{
    reveal_strlit(".SF");
    reveal_strlit("META-INF/MANIFEST.MF");
    reveal_strlit("index-v1.json");
    reveal_strlit("entry.json");
    let f = signed_file_name_of(s);
    let n = f.len();
    assert(f[n - 2] == 'S');
    let m = manifest_path();
    assert(m[m.len() - 2] == 'M');
    let p = payload_path(scheme);
    assert(p[p.len() - 1] == 'n');
    assert(f[n - 1] == 'F');
}

/// Whether `y` differs from `x` in exactly one byte.
pub open spec fn one_byte_flipped(x: Seq<u8>, y: Seq<u8>) -> bool {
    x.len() == y.len() && exists|k: int|
        0 <= k < x.len() && x[k] != y[k] && forall|j: int| 0 <= j < x.len() && j != k ==> x[j] == y[j]
}

/// An archive with a single signature block whose certificate and signer are
/// one each, whose signature verifies over its signed file, and whose
/// certificate's digest is the trust fingerprint, with a manifest whose digest
/// the signed file declares and a signed JSON file whose digest the manifest
/// declares, verifies, and yields that JSON file.
pub proof fn lemma_consistent_archive_verifies(
    a: Seq<(Seq<char>, Seq<u8>)>,
    fingerprint: Seq<u8>,
    scheme: SigningScheme,
    signed: Seq<u8>,
    manifest: Seq<u8>,
    payload: Seq<u8>,
)
    requires
        has_sole_block(a),
        member(a, signed_file_name_of(a[sole_block(a)].0)) == Some(signed),
        signature_sound(block_facts(a[sole_block(a)].1, signed)),
        ring_sha256_of(cms_certificate_der(a[sole_block(a)].1)->Some_0) == fingerprint,
        member(a, manifest_path()) == Some(manifest),
        manifest_matches(scheme, signed, manifest),
        member(a, payload_path(scheme)) == Some(payload),
        payload_matches(scheme, manifest, payload),
    ensures
        archive_outcome(a, fingerprint, true, scheme) == Ok::<Seq<u8>, Error>(payload),
{
}

/// Neither the manifest nor a signed JSON file is a signature block.
pub proof fn lemma_not_blocks(scheme: SigningScheme)
    ensures
        !is_signature_block_name(manifest_path()),
        !is_signature_block_name(payload_path(scheme)),
{
    reveal_strlit("META-INF/MANIFEST.MF");
    reveal_strlit("META-INF/");
    reveal_strlit(".DSA");
    reveal_strlit(".EC");
    reveal_strlit(".RSA");
    reveal_strlit("index-v1.json");
    reveal_strlit("entry.json");
    let m = manifest_path();
    assert(m.subrange(16, 20)[0] == 'T');
    assert(!chars_at(m, ".DSA"@, 16));
    assert(m.subrange(16, 20)[3] == 'F');
    assert(!chars_at(m, ".RSA"@, 16));
    assert(m.subrange(17, 20)[1] == 'M');
    assert(!chars_at(m, ".EC"@, 17));
    let p = payload_path(scheme);
    assert(p.subrange(0, 9)[0] != 'M');
    assert(!chars_at(p, meta_inf(), 0));
}

/// Replacing the bytes of a member that is not a signature block leaves the
/// archive's signature facts alone, as long as it is not the signed file.
proof fn lemma_facts_kept(a: Seq<(Seq<char>, Seq<u8>)>, i: int, d: Seq<u8>)
    requires
        last_at(a, a[i].0, i),
        !is_signature_block_name(a[i].0),
        has_sole_block(a),
        signed_file_name_of(a[sole_block(a)].0) != a[i].0,
    ensures
        has_sole_block(a.update(i, (a[i].0, d))),
        sole_block(a.update(i, (a[i].0, d))) == sole_block(a),
        archive_facts(a.update(i, (a[i].0, d))) == archive_facts(a),
{
    let b2 = a.update(i, (a[i].0, d));
    lemma_replace_member(a, i, d);
    let c = sole_block(a);
    assert(sole_block_at(a, c));
    assert(sole_block_at(b2, c));
    lemma_sole_block_is(b2, c);
    assert(c != i);
    assert(b2[c] == a[c]);
}

/// Once an archive verifies, changing one byte of its manifest makes it fail
/// with `DigestError`, unless the changed manifest has the same digest.
pub proof fn lemma_altered_manifest_fails(
    a: Seq<(Seq<char>, Seq<u8>)>,
    fingerprint: Seq<u8>,
    scheme: SigningScheme,
    i: int,
    altered: Seq<u8>,
)
    requires
        archive_outcome(a, fingerprint, true, scheme) is Ok,
        last_at(a, manifest_path(), i),
        one_byte_flipped(a[i].1, altered),
        scheme.digest_of(altered) != scheme.digest_of(a[i].1),
    ensures
        archive_outcome(a.update(i, (manifest_path(), altered)), fingerprint, true, scheme)
            == Err::<Seq<u8>, Error>(Error::DigestError),
{
    lemma_paths_distinct(a[sole_block(a)].0, scheme);
    lemma_not_blocks(scheme);
    lemma_facts_kept(a, i, altered);
    lemma_replace_member(a, i, altered);
    assert(member(a, manifest_path()) == Some(a[i].1));
}

/// Once an archive verifies, changing one byte of its signed JSON file makes
/// it fail with `DigestError`, unless the changed file has the same digest.
pub proof fn lemma_altered_payload_fails(
    a: Seq<(Seq<char>, Seq<u8>)>,
    fingerprint: Seq<u8>,
    scheme: SigningScheme,
    i: int,
    altered: Seq<u8>,
)
    requires
        archive_outcome(a, fingerprint, true, scheme) is Ok,
        last_at(a, payload_path(scheme), i),
        one_byte_flipped(a[i].1, altered),
        scheme.digest_of(altered) != scheme.digest_of(a[i].1),
    ensures
        archive_outcome(a.update(i, (payload_path(scheme), altered)), fingerprint, true, scheme)
            == Err::<Seq<u8>, Error>(Error::DigestError),
{
    lemma_paths_distinct(a[sole_block(a)].0, scheme);
    lemma_not_blocks(scheme);
    lemma_facts_kept(a, i, altered);
    lemma_replace_member(a, i, altered);
    assert(member(a, payload_path(scheme)) == Some(a[i].1));
}

/// A signature block with one certificate and one signer whose signature
/// verifies, but whose certificate's digest is not the trust fingerprint, is
/// refused with `TrustError`.
pub proof fn lemma_untrusted_signer_fails(
    a: Seq<(Seq<char>, Seq<u8>)>,
    fingerprint: Seq<u8>,
    scheme: SigningScheme,
    signed: Seq<u8>,
)
    requires
        has_sole_block(a),
        member(a, signed_file_name_of(a[sole_block(a)].0)) == Some(signed),
        signature_sound(block_facts(a[sole_block(a)].1, signed)),
        ring_sha256_of(cms_certificate_der(a[sole_block(a)].1)->Some_0) != fingerprint,
    ensures
        archive_outcome(a, fingerprint, true, scheme) == Err::<Seq<u8>, Error>(Error::TrustError),
{
}

/// A signature block with one certificate and one signer whose signature does
/// not verify over the signed file is refused with `SignatureError`, whatever
/// its certificate.
pub proof fn lemma_bad_signature_fails(
    a: Seq<(Seq<char>, Seq<u8>)>,
    fingerprint: Seq<u8>,
    scheme: SigningScheme,
    signed: Seq<u8>,
)
    requires
        has_sole_block(a),
        member(a, signed_file_name_of(a[sole_block(a)].0)) == Some(signed),
        cms_certificate_count(a[sole_block(a)].1) == Some(1nat),
        cms_signer_count(a[sole_block(a)].1) == Some(1nat),
        !cms_signature_verifies(a[sole_block(a)].1, signed),
    ensures
        archive_outcome(a, fingerprint, true, scheme) == Err::<Seq<u8>, Error>(Error::SignatureError),
{
}

} // verus!
