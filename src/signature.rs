//! The CMS signature block: what parsing it yields, and the decision whether
//! its signer is trusted.
use vstd::prelude::*;
use cryptographic_message_syntax::SignedData;
use crate::digest::{ring_sha256_accepts, ring_sha256_digest, ring_sha256_of};
use crate::error::Error;
use crate::manifest::bytes_equal;

verus! {

/// The number of certificates embedded in a CMS SignedData block, or nothing
/// where the bytes do not parse as one.
pub uninterp spec fn cms_certificate_count(block: Seq<u8>) -> Option<nat>;

/// The number of signer infos of a CMS SignedData block, or nothing where the
/// bytes do not parse as one.
pub uninterp spec fn cms_signer_count(block: Seq<u8>) -> Option<nat>;

/// Whether the block parses and its first signer's signature over `signed`
/// verifies with the embedded certificate's key.
pub uninterp spec fn cms_signature_verifies(block: Seq<u8>, signed: Seq<u8>) -> bool;

/// The encoding of the block's first embedded certificate, where the block
/// parses, holds one, and it encodes.
pub uninterp spec fn cms_certificate_der(block: Seq<u8>) -> Option<Seq<u8>>;

/// Relies on `SignedData::parse_ber` and `SignedData::certificates`: the
/// number of embedded certificates of the parsed block.
#[verifier::external_body]
fn certificate_count(block: &[u8]) -> (r: Option<usize>)
    ensures
        match r {
            Some(n) => cms_certificate_count(block@) == Some(n as nat),
            None => cms_certificate_count(block@) is None,
        },
{
    SignedData::parse_ber(block).ok().map(|sd| sd.certificates().count())
}

/// Relies on `SignedData::parse_ber` and `SignedData::signers`: the number of
/// signer infos of the parsed block.
#[verifier::external_body]
fn signer_count(block: &[u8]) -> (r: Option<usize>)
    ensures
        match r {
            Some(n) => cms_signer_count(block@) == Some(n as nat),
            None => cms_signer_count(block@) is None,
        },
{
    SignedData::parse_ber(block).ok().map(|sd| sd.signers().count())
}

/// Relies on `SignedData::parse_ber` and
/// `SignerInfo::verify_signature_with_signed_data_and_content`, applied to the
/// first signer: whether its signature verifies over `signed`.
#[verifier::external_body]
fn signature_verifies(block: &[u8], signed: &[u8]) -> (r: bool)
    ensures
        r == cms_signature_verifies(block@, signed@),
{
    SignedData::parse_ber(block).ok().is_some_and(
        |sd| sd.signers().next().is_some_and(
            |s| s.verify_signature_with_signed_data_and_content(&sd, signed).is_ok(),
        ),
    )
}

/// Relies on `SignedData::parse_ber` and `CapturedX509Certificate::encode_ber`,
/// applied to the first embedded certificate.
#[verifier::external_body]
fn certificate_encoding(block: &[u8]) -> (r: Option<Vec<u8>>)
    ensures
        match r {
            Some(v) => cms_certificate_der(block@) == Some(v@),
            None => cms_certificate_der(block@) is None,
        },
{
    SignedData::parse_ber(block).ok().and_then(|sd| sd.certificates().next().and_then(|c| c.encode_ber().ok()))
}

/// What a signature block shows, as plain values.
pub ghost struct SignerFacts {
    pub certificates: Option<nat>,
    pub signers: Option<nat>,
    pub signature_valid: bool,
    pub certificate: Option<Seq<u8>>,
}

/// What the signature block showed.
pub struct SignerReport {
    /// The number of embedded certificates; nothing where the block does not
    /// parse.
    pub certificates: Option<usize>,
    /// The number of signer infos; nothing where the block does not parse.
    pub signers: Option<usize>,
    /// Whether the signer's signature verifies over the signed file.
    pub signature_valid: bool,
    /// The encoding of the embedded certificate.
    pub certificate: Option<Vec<u8>>,
}

impl View for SignerReport {
    type V = SignerFacts;

    open spec fn view(&self) -> SignerFacts {
        SignerFacts {
            certificates: match self.certificates {
                Some(n) => Some(n as nat),
                None => None,
            },
            signers: match self.signers {
                Some(n) => Some(n as nat),
                None => None,
            },
            signature_valid: self.signature_valid,
            certificate: match self.certificate {
                Some(v) => Some(v@),
                None => None,
            },
        }
    }
}

/// What the signature block `block` shows of a signed file `signed`.
pub open spec fn block_facts(block: Seq<u8>, signed: Seq<u8>) -> SignerFacts {
    SignerFacts {
        certificates: cms_certificate_count(block),
        signers: cms_signer_count(block),
        signature_valid: cms_signature_verifies(block, signed),
        certificate: cms_certificate_der(block),
    }
}

/// The verdict on a signature block, given what it showed and the trust
/// fingerprint: a block that does not parse, or that holds other than one
/// certificate and one signer, is a `CertificateError`; a signature that does
/// not verify is a `SignatureError`; and a signature that verifies is still
/// refused with `TrustError` when its certificate's SHA-256 digest is not the
/// fingerprint.
pub open spec fn signer_outcome(f: SignerFacts, fingerprint: Seq<u8>) -> Result<(), Error> {
    if f.certificates != Some(1nat) || f.signers != Some(1nat) {
        Err(Error::CertificateError)
    } else if !f.signature_valid {
        Err(Error::SignatureError)
    } else {
        match f.certificate {
            None => Err(Error::CertificateError),
            Some(der) => if !ring_sha256_accepts(der.len()) {
                Err(Error::CertificateError)
            } else if ring_sha256_of(der) != fingerprint {
                Err(Error::TrustError)
            } else {
                Ok(())
            },
        }
    }
}

/// Whether a block shows one certificate and one signer whose signature
/// verifies, so that only the certificate's digest is left to check.
pub open spec fn signature_sound(f: SignerFacts) -> bool {
    f.certificates == Some(1nat) && f.signers == Some(1nat) && f.signature_valid
        && f.certificate is Some && ring_sha256_accepts(f.certificate->Some_0.len())
}

/// The report of a block that was not inspected.
pub open spec fn unchecked_facts() -> SignerFacts {
    SignerFacts { certificates: None, signers: None, signature_valid: false, certificate: None }
}

/// A report that stands in where no block was inspected.
pub fn unchecked_report() -> (r: SignerReport)
    ensures
        r@ == unchecked_facts(),
{
    SignerReport { certificates: None, signers: None, signature_valid: false, certificate: None }
}

/// Parses the signature block and checks its signature over the signed file.
pub fn inspect_signature_block(block: &[u8], signed: &[u8]) -> (r: SignerReport)
    ensures
        r@ == block_facts(block@, signed@),
{
    let certificates = certificate_count(block);
    let signers = signer_count(block);
    let signature_valid = signature_verifies(block, signed);
    let certificate = certificate_encoding(block);
    SignerReport { certificates, signers, signature_valid, certificate }
}

/// Decides whether the signer that a report describes is trusted.
pub fn check_signer(r: &SignerReport, fingerprint: &Vec<u8>) -> (res: Result<(), Error>)
    ensures
        res == signer_outcome(r@, fingerprint@),
{
    match (r.certificates, r.signers) {
        (Some(c), Some(s)) => {
            if c != 1 || s != 1 {
                return Err(Error::CertificateError);
            }
        },
        _ => return Err(Error::CertificateError),
    }
    if !r.signature_valid {
        return Err(Error::SignatureError);
    }
    match &r.certificate {
        None => Err(Error::CertificateError),
        Some(der) => {
            if der.len() as u64 >= 0x2000_0000_0000_0000u64 {
                return Err(Error::CertificateError);
            }
            let digest = ring_sha256_digest(der.as_slice());
            if bytes_equal(&digest, fingerprint) {
                Ok(())
            } else {
                Err(Error::TrustError)
            }
        },
    }
}

} // verus!
