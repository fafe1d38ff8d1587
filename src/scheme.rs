//! The two signing schemes of a repository and the names and fields that
//! each of them uses.
use vstd::prelude::*;
use crate::digest::{sha1_digest, sha1_of, sha256_digest, sha256_of};

verus! {

/// The signing scheme of a repository index.
#[derive(Debug, Clone, Copy, PartialEq, Eq, Structural)]
pub enum SigningScheme {
    /// `index-v1.jar`: SHA-1 digests, and the signed JSON is the index itself.
    Legacy,
    /// `entry.jar`: SHA-256 digests, and the signed JSON names a second file
    /// that holds the index.
    Entry,
}

/// The bytes `\r\nSHA1-Digest-Manifest: `.
pub open spec fn legacy_manifest_field() -> Seq<u8> {
    seq![13u8, 10u8, 83u8, 72u8, 65u8, 49u8, 45u8, 68u8, 105u8, 103u8, 101u8, 115u8, 116u8, 45u8, 77u8, 97u8, 110u8, 105u8, 102u8, 101u8, 115u8, 116u8, 58u8, 32u8]
}

/// The bytes `\r\nSHA-256-Digest-Manifest: `.
pub open spec fn entry_manifest_field() -> Seq<u8> {
    seq![13u8, 10u8, 83u8, 72u8, 65u8, 45u8, 50u8, 53u8, 54u8, 45u8, 68u8, 105u8, 103u8, 101u8, 115u8, 116u8, 45u8, 77u8, 97u8, 110u8, 105u8, 102u8, 101u8, 115u8, 116u8, 58u8, 32u8]
}

/// The bytes `\r\nName: index-v1.json\r\nSHA1-Digest: `.
pub open spec fn legacy_payload_field() -> Seq<u8> {
    seq![13u8, 10u8, 78u8, 97u8, 109u8, 101u8, 58u8, 32u8, 105u8, 110u8, 100u8, 101u8, 120u8, 45u8, 118u8, 49u8, 46u8, 106u8, 115u8, 111u8, 110u8, 13u8, 10u8, 83u8, 72u8, 65u8, 49u8, 45u8, 68u8, 105u8, 103u8, 101u8, 115u8, 116u8, 58u8, 32u8]
}

/// The bytes `\r\nName: entry.json\r\nSHA-256-Digest: `.
pub open spec fn entry_payload_field() -> Seq<u8> {
    seq![13u8, 10u8, 78u8, 97u8, 109u8, 101u8, 58u8, 32u8, 101u8, 110u8, 116u8, 114u8, 121u8, 46u8, 106u8, 115u8, 111u8, 110u8, 13u8, 10u8, 83u8, 72u8, 65u8, 45u8, 50u8, 53u8, 54u8, 45u8, 68u8, 105u8, 103u8, 101u8, 115u8, 116u8, 58u8, 32u8]
}

impl SigningScheme {
    /// The field of the signed file that holds the manifest's digest.
    pub open spec fn manifest_field(self) -> Seq<u8> {
        match self {
            SigningScheme::Legacy => legacy_manifest_field(),
            SigningScheme::Entry => entry_manifest_field(),
        }
    }

    /// The field of the manifest that holds the signed JSON file's digest.
    pub open spec fn payload_field(self) -> Seq<u8> {
        match self {
            SigningScheme::Legacy => legacy_payload_field(),
            SigningScheme::Entry => entry_payload_field(),
        }
    }

    /// The digest that the scheme uses throughout.
    pub open spec fn digest_of(self, b: Seq<u8>) -> Seq<u8> {
        match self {
            SigningScheme::Legacy => sha1_of(b),
            SigningScheme::Entry => sha256_of(b),
        }
    }

    /// The path of the signed JSON file inside the archive.
    pub open spec fn payload_path(self) -> Seq<char> {
        match self {
            SigningScheme::Legacy => "index-v1.json"@,
            SigningScheme::Entry => "entry.json"@,
        }
    }

    /// Whether the signed JSON names a second file that holds the index.
    pub open spec fn has_secondary(self) -> bool {
        self is Entry
    }

    pub fn is_two_level(&self) -> (r: bool)
        ensures
            r == self.has_secondary(),
    {
        match self {
            SigningScheme::Legacy => false,
            SigningScheme::Entry => true,
        }
    }

    /// The scheme's digest of `b`.
    pub fn digest(&self, b: &[u8]) -> (r: Vec<u8>)
        ensures
            r@ == self.digest_of(b@),
    {
        match self {
            SigningScheme::Legacy => sha1_digest(b),
            SigningScheme::Entry => sha256_digest(b),
        }
    }

    pub fn manifest_field_bytes(&self) -> (r: Vec<u8>)
        ensures
            r@ == self.manifest_field(),
    {
        let r = match self {
            SigningScheme::Legacy => vec![13u8, 10, 83, 72, 65, 49, 45, 68, 105, 103, 101, 115, 116, 45, 77, 97, 110, 105, 102, 101, 115, 116, 58, 32],
            SigningScheme::Entry => vec![13u8, 10, 83, 72, 65, 45, 50, 53, 54, 45, 68, 105, 103, 101, 115, 116, 45, 77, 97, 110, 105, 102, 101, 115, 116, 58, 32],
        };
        assert(r@ =~= self.manifest_field());
        r
    }

    pub fn payload_field_bytes(&self) -> (r: Vec<u8>)
        ensures
            r@ == self.payload_field(),
    {
        let r = match self {
            SigningScheme::Legacy => vec![13u8, 10, 78, 97, 109, 101, 58, 32, 105, 110, 100, 101, 120, 45, 118, 49, 46, 106, 115, 111, 110, 13, 10, 83, 72, 65, 49, 45, 68, 105, 103, 101, 115, 116, 58, 32],
            SigningScheme::Entry => vec![13u8, 10, 78, 97, 109, 101, 58, 32, 101, 110, 116, 114, 121, 46, 106, 115, 111, 110, 13, 10, 83, 72, 65, 45, 50, 53, 54, 45, 68, 105, 103, 101, 115, 116, 58, 32],
        };
        assert(r@ =~= self.payload_field());
        r
    }

    /// The archive that holds the signed files.
    pub fn archive_name(&self) -> (r: &'static str)
        ensures
            r@ == if *self == SigningScheme::Legacy {
                "index-v1.jar"@
            } else {
                "entry.jar"@
            },
    {
        match self {
            SigningScheme::Legacy => "index-v1.jar",
            SigningScheme::Entry => "entry.jar",
        }
    }

    /// The signed JSON file inside the archive.
    pub fn payload_name(&self) -> (r: &'static str)
        ensures
            r@ == self.payload_path(),
    {
        match self {
            SigningScheme::Legacy => "index-v1.json",
            SigningScheme::Entry => "entry.json",
        }
    }

    /// The cache file that holds the ETag of the last verified archive.
    pub fn etag_file_name(&self) -> (r: &'static str)
        ensures
            r@ == if *self == SigningScheme::Legacy {
                "latest_etag"@
            } else {
                "latest_entry_etag"@
            },
    {
        match self {
            SigningScheme::Legacy => "latest_etag",
            SigningScheme::Entry => "latest_entry_etag",
        }
    }

    /// The cache file that holds the last verified index.
    pub fn index_file_name(&self) -> (r: &'static str)
        ensures
            r@ == if *self == SigningScheme::Legacy {
                "index_v1.json"@
            } else {
                "index.json"@
            },
    {
        match self {
            SigningScheme::Legacy => "index_v1.json",
            SigningScheme::Entry => "index.json",
        }
    }
}

} // verus!
