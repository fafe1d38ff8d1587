use apkeep::archive::{is_signature_block, signed_file_name, Archive, ArchiveEntry};
use apkeep::error::Error;
use apkeep::manifest::{check_manifest_digest, check_payload_digest, find_field};
use apkeep::scheme::SigningScheme;
use apkeep::signature::{check_signer, inspect_signature_block, SignerReport};
use apkeep::verify::{verify_and_return_json, verify_archive_with};
use base64::Engine;
use sha1::Digest;

const PAYLOAD: &[u8] = br#"{"repo":{"address":"https://f-droid.org/repo"},"packages":{}}"#;
const CERTIFICATE: &[u8] = b"test certificate";

fn b64(b: &[u8]) -> String {
    base64::engine::general_purpose::STANDARD.encode(b)
}

fn digest(scheme: SigningScheme, b: &[u8]) -> Vec<u8> {
    match scheme {
        SigningScheme::Legacy => sha1::Sha1::digest(b).to_vec(),
        SigningScheme::Entry => sha2::Sha256::digest(b).to_vec(),
    }
}

fn manifest_for(scheme: SigningScheme, payload: &[u8]) -> Vec<u8> {
    let (name, field) = match scheme {
        SigningScheme::Legacy => ("index-v1.json", "SHA1-Digest"),
        SigningScheme::Entry => ("entry.json", "SHA-256-Digest"),
    };
    format!(
        "Manifest-Version: 1.0\r\nCreated-By: test\r\n\r\nName: {}\r\n{}: {}\r\n\r\n",
        name,
        field,
        b64(&digest(scheme, payload))
    )
    .into_bytes()
}

fn signed_for(scheme: SigningScheme, manifest: &[u8]) -> Vec<u8> {
    let field = match scheme {
        SigningScheme::Legacy => "SHA1-Digest-Manifest",
        SigningScheme::Entry => "SHA-256-Digest-Manifest",
    };
    format!(
        "Signature-Version: 1.0\r\n{}: {}\r\nCreated-By: test\r\n\r\n",
        field,
        b64(&digest(scheme, manifest))
    )
    .into_bytes()
}

fn entry(path: &str, data: &[u8]) -> ArchiveEntry {
    ArchiveEntry { path: path.to_string(), data: data.to_vec() }
}

fn archive_for(scheme: SigningScheme, payload: &[u8]) -> Archive {
    let payload_name = match scheme {
        SigningScheme::Legacy => "index-v1.json",
        SigningScheme::Entry => "entry.json",
    };
    let manifest = manifest_for(scheme, payload);
    let signed = signed_for(scheme, &manifest);
    Archive {
        entries: vec![
            entry("META-INF/MANIFEST.MF", &manifest),
            entry("META-INF/CERT.SF", &signed),
            entry("META-INF/CERT.RSA", b"not a real signature block"),
            entry(payload_name, payload),
        ],
    }
}

fn sound_report() -> SignerReport {
    SignerReport {
        certificates: Some(1),
        signers: Some(1),
        signature_valid: true,
        certificate: Some(CERTIFICATE.to_vec()),
    }
}

fn trusted_fingerprint() -> Vec<u8> {
    sha2::Sha256::digest(CERTIFICATE).to_vec()
}

#[test]
fn consistent_archive_verifies() {
    for scheme in [SigningScheme::Legacy, SigningScheme::Entry] {
        let a = archive_for(scheme, PAYLOAD);
        let r = verify_archive_with(&a, &sound_report(), &trusted_fingerprint(), true, scheme);
        assert_eq!(r, Ok(PAYLOAD.to_vec()));
    }
}

#[test]
fn flipped_manifest_byte_is_digest_error() {
    let a = archive_for(SigningScheme::Legacy, PAYLOAD);
    let len = a.entries[0].data.len();
    for k in [0, len / 2, len - 1] {
        let mut b = archive_for(SigningScheme::Legacy, PAYLOAD);
        b.entries[0].data[k] ^= 0x01;
        let r = verify_archive_with(&b, &sound_report(), &trusted_fingerprint(), true, SigningScheme::Legacy);
        assert_eq!(r, Err(Error::DigestError));
    }
}

#[test]
fn flipped_payload_byte_is_digest_error() {
    for k in [0, 10, PAYLOAD.len() - 1] {
        let mut b = archive_for(SigningScheme::Entry, PAYLOAD);
        b.entries[3].data[k] ^= 0x20;
        let r = verify_archive_with(&b, &sound_report(), &trusted_fingerprint(), true, SigningScheme::Entry);
        assert_eq!(r, Err(Error::DigestError));
    }
}

#[test]
fn untrusted_certificate_is_trust_error() {
    let a = archive_for(SigningScheme::Legacy, PAYLOAD);
    let mut other = trusted_fingerprint();
    other[0] ^= 0xff;
    let r = verify_archive_with(&a, &sound_report(), &other, true, SigningScheme::Legacy);
    assert_eq!(r, Err(Error::TrustError));
}

#[test]
fn signer_decisions() {
    let fp = trusted_fingerprint();
    assert_eq!(check_signer(&sound_report(), &fp), Ok(()));
    let mut r = sound_report();
    r.signature_valid = false;
    assert_eq!(check_signer(&r, &fp), Err(Error::SignatureError));
    let mut r = sound_report();
    r.certificates = Some(2);
    assert_eq!(check_signer(&r, &fp), Err(Error::CertificateError));
    let mut r = sound_report();
    r.signers = Some(0);
    assert_eq!(check_signer(&r, &fp), Err(Error::CertificateError));
    let mut r = sound_report();
    r.certificates = None;
    assert_eq!(check_signer(&r, &fp), Err(Error::CertificateError));
    let mut r = sound_report();
    r.certificate = None;
    assert_eq!(check_signer(&r, &fp), Err(Error::CertificateError));
    assert_eq!(check_signer(&sound_report(), &CERTIFICATE.to_vec()), Err(Error::TrustError));
}

#[test]
fn garbage_signature_block_does_not_parse() {
    let r = inspect_signature_block(b"not a real signature block", b"signed");
    assert_eq!(r.certificates, None);
    assert_eq!(r.signers, None);
    assert!(!r.signature_valid);
    assert_eq!(r.certificate, None);
    let a = archive_for(SigningScheme::Legacy, PAYLOAD);
    let out = verify_and_return_json(&a, &trusted_fingerprint(), true, SigningScheme::Legacy);
    assert_eq!(out, Err(Error::CertificateError));
}

#[test]
fn verification_off_takes_payload() {
    let mut a = archive_for(SigningScheme::Legacy, PAYLOAD);
    a.entries[0].data[0] ^= 1;
    let out = verify_and_return_json(&a, &trusted_fingerprint(), false, SigningScheme::Legacy);
    assert_eq!(out, Ok(PAYLOAD.to_vec()));
    let bare = Archive { entries: vec![entry("index-v1.json", PAYLOAD)] };
    let out = verify_and_return_json(&bare, &trusted_fingerprint(), false, SigningScheme::Legacy);
    assert_eq!(out, Ok(PAYLOAD.to_vec()));
    let out = verify_and_return_json(&bare, &trusted_fingerprint(), false, SigningScheme::Entry);
    assert_eq!(out, Err(Error::ArchiveError));
    let out = verify_and_return_json(&bare, &trusted_fingerprint(), true, SigningScheme::Legacy);
    assert_eq!(out, Err(Error::CertificateError));
}

#[test]
fn signature_block_count() {
    let mut a = archive_for(SigningScheme::Legacy, PAYLOAD);
    a.entries.push(entry("META-INF/OTHER.DSA", b"x"));
    let r = verify_archive_with(&a, &sound_report(), &trusted_fingerprint(), true, SigningScheme::Legacy);
    assert_eq!(r, Err(Error::CertificateError));
    let mut b = archive_for(SigningScheme::Legacy, PAYLOAD);
    b.entries.remove(2);
    let r = verify_archive_with(&b, &sound_report(), &trusted_fingerprint(), true, SigningScheme::Legacy);
    assert_eq!(r, Err(Error::CertificateError));
}

#[test]
fn missing_members_are_archive_errors() {
    let mut a = archive_for(SigningScheme::Legacy, PAYLOAD);
    a.entries.remove(3);
    let r = verify_archive_with(&a, &sound_report(), &trusted_fingerprint(), true, SigningScheme::Legacy);
    assert_eq!(r, Err(Error::ArchiveError));
    let mut b = archive_for(SigningScheme::Legacy, PAYLOAD);
    b.entries.remove(1);
    let r = verify_archive_with(&b, &sound_report(), &trusted_fingerprint(), true, SigningScheme::Legacy);
    assert_eq!(r, Err(Error::ArchiveError));
}

#[test]
fn last_duplicate_member_wins() {
    let mut a = archive_for(SigningScheme::Legacy, PAYLOAD);
    a.entries.insert(0, entry("index-v1.json", b"stale"));
    let r = verify_archive_with(&a, &sound_report(), &trusted_fingerprint(), true, SigningScheme::Legacy);
    assert_eq!(r, Ok(PAYLOAD.to_vec()));
}

#[test]
fn signature_block_names() {
    assert!(is_signature_block("META-INF/CERT.RSA"));
    assert!(is_signature_block("META-INF/CERT.DSA"));
    assert!(is_signature_block("META-INF/CERT.EC"));
    assert!(is_signature_block("META-INF/a/b.RSA"));
    assert!(is_signature_block("META-INF/.RSA"));
    assert!(!is_signature_block("META-INF/CERT.rsa"));
    assert!(!is_signature_block("META-INF/CERT.RSA.bak"));
    assert!(!is_signature_block("CERT.RSA"));
    assert!(!is_signature_block("META-INF/A\nB.RSA"));
    assert_eq!(signed_file_name("META-INF/CERT.RSA"), "META-INF/CERT.SF");
    assert_eq!(signed_file_name("META-INF/KEY.EC"), "META-INF/KEY.SF");
    assert_eq!(signed_file_name("META-INF/.RSA"), "META-INF/.RSA.SF");
    assert_eq!(signed_file_name("META-INF/x..DSA"), "META-INF/x..SF");
}

#[test]
fn field_lookup_follows_line_format() {
    let t = b"A: 1\r\nSHA1-Digest-Manifest: abc\r\nSHA1-Digest-Manifest: def\r\n";
    let p = b"\r\nSHA1-Digest-Manifest: ";
    assert_eq!(find_field(t, p), Some(b"abc".to_vec()));
    let unterminated = b"A\r\nSHA1-Digest-Manifest: abc\n";
    assert_eq!(find_field(unterminated, p), None);
    let first_line = b"SHA1-Digest-Manifest: abc\r\n";
    assert_eq!(find_field(first_line, p), None);
    let empty = b"A\r\nSHA1-Digest-Manifest: \r\n";
    assert_eq!(find_field(empty, p), Some(vec![]));
}

#[test]
fn digest_chain_checks() {
    let manifest = manifest_for(SigningScheme::Legacy, PAYLOAD);
    let signed = signed_for(SigningScheme::Legacy, &manifest);
    assert_eq!(check_manifest_digest(SigningScheme::Legacy, &signed, &manifest), Ok(()));
    assert_eq!(check_payload_digest(SigningScheme::Legacy, &manifest, PAYLOAD), Ok(()));
    assert_eq!(
        check_manifest_digest(SigningScheme::Entry, &signed, &manifest),
        Err(Error::DigestError)
    );
    assert_eq!(
        check_payload_digest(SigningScheme::Legacy, &manifest, b"{}"),
        Err(Error::DigestError)
    );
    let undecodable = b"X\r\nSHA1-Digest-Manifest: %%%%\r\n".to_vec();
    assert_eq!(
        check_manifest_digest(SigningScheme::Legacy, &undecodable, &manifest),
        Err(Error::DigestError)
    );
}
