use apkeep::archive::{Archive, ArchiveEntry};
use apkeep::cache::cache_location;
use apkeep::config::{
    fdroid_index_fingerprint, resolve_repository, scheme_from_option, verification_from_option, RepositoryRef,
    FDROID_REPO,
};
use apkeep::entry::{check_index_file, index_reference, IndexReference};
use apkeep::error::Error;
use apkeep::json::decode_json;
use apkeep::scheme::SigningScheme;
use apkeep::sync::{Action, Event, Phase, Sync};
use sha2::Digest;

const INDEX: &[u8] = br#"{"repo":{"address":"https://f-droid.org/repo"},"packages":{}}"#;

fn default_repo() -> RepositoryRef {
    resolve_repository(None).unwrap()
}

fn legacy_archive(payload: &[u8]) -> Archive {
    Archive {
        entries: vec![
            ArchiveEntry { path: "META-INF/MANIFEST.MF".to_string(), data: b"Manifest-Version: 1.0\r\n".to_vec() },
            ArchiveEntry { path: "META-INF/CERT.SF".to_string(), data: b"Signature-Version: 1.0\r\n".to_vec() },
            ArchiveEntry { path: "META-INF/CERT.RSA".to_string(), data: b"block".to_vec() },
            ArchiveEntry { path: "index-v1.json".to_string(), data: payload.to_vec() },
        ],
    }
}

fn expect_store(a: Action) -> (Vec<u8>, String) {
    match a {
        Action::Store { index, etag } => (index, etag),
        _ => panic!("expected the index to be stored"),
    }
}

#[test]
fn unchanged_etag_uses_cache() {
    let mut first = Sync::new(default_repo(), SigningScheme::Legacy, false, None);
    assert!(matches!(first.begin(), Action::RequestHead));
    assert!(matches!(first.step(Event::Head(Some("\"v1\"".to_string()))), Action::DownloadArchive));
    let (stored, etag) = expect_store(first.step(Event::ArchiveExtracted(legacy_archive(INDEX))));
    assert_eq!(stored, INDEX.to_vec());
    assert_eq!(etag, "\"v1\"");

    let mut second = Sync::new(default_repo(), SigningScheme::Legacy, false, Some(etag.clone()));
    let mut requests = 0;
    let mut downloads = 0;
    let mut action = second.begin();
    let delivered = loop {
        match action {
            Action::RequestHead => {
                requests += 1;
                action = second.step(Event::Head(Some(etag.clone())));
            },
            Action::LoadCachedIndex => action = second.step(Event::CachedIndex(stored.clone())),
            Action::DownloadArchive | Action::DownloadIndexFile(_) => {
                downloads += 1;
                break None;
            },
            Action::Deliver(index) => break Some(index),
            Action::Store { .. } | Action::Abort(_) => break None,
        }
    };
    assert_eq!(requests, 1);
    assert_eq!(downloads, 0);
    assert_eq!(delivered, Some(INDEX.to_vec()));
    assert_eq!(second.phase, Phase::Done);
}

#[test]
fn changed_etag_downloads_and_overwrites() {
    let mut s = Sync::new(default_repo(), SigningScheme::Legacy, false, Some("\"old\"".to_string()));
    s.begin();
    assert!(matches!(s.step(Event::Head(Some("\"new\"".to_string()))), Action::DownloadArchive));
    let ev = Event::ArchiveExtracted(legacy_archive(INDEX));
    assert!(s.accepts(&ev));
    let (stored, etag) = expect_store(s.step(ev));
    assert_eq!(stored, INDEX.to_vec());
    assert_eq!(etag, "\"new\"");
    assert!(!s.accepts(&Event::CachedIndex(vec![])));
}

#[test]
fn changed_etag_reverifies() {
    let mut s = Sync::new(default_repo(), SigningScheme::Legacy, true, Some("\"old\"".to_string()));
    s.begin();
    assert!(matches!(s.step(Event::Head(Some("\"new\"".to_string()))), Action::DownloadArchive));
    match s.step(Event::ArchiveExtracted(legacy_archive(INDEX))) {
        Action::Abort(e) => assert_eq!(e, Error::CertificateError),
        _ => panic!("an archive with a bogus signature block must be refused"),
    }
}

#[test]
fn missing_etag_is_transport_error() {
    let mut s = Sync::new(default_repo(), SigningScheme::Entry, true, None);
    s.begin();
    match s.step(Event::Head(None)) {
        Action::Abort(e) => assert_eq!(e, Error::TransportError),
        _ => panic!("a response without an ETag must stop the synchronisation"),
    }
}

#[test]
fn payload_that_is_not_json_is_schema_error() {
    let mut s = Sync::new(default_repo(), SigningScheme::Legacy, false, None);
    s.begin();
    s.step(Event::Head(Some("e".to_string())));
    match s.step(Event::ArchiveExtracted(legacy_archive(b"not json"))) {
        Action::Abort(e) => assert_eq!(e, Error::SchemaError),
        _ => panic!("a payload that is not JSON must be refused"),
    }
}

#[test]
fn two_level_scheme_downloads_named_index() {
    let index_digest = hex::encode(sha2::Sha256::digest(INDEX));
    let entry_json = format!(r#"{{"timestamp":1,"index":{{"name":"/index-v2.json","sha256":"{}"}}}}"#, index_digest);
    let archive = Archive {
        entries: vec![
            ArchiveEntry { path: "META-INF/MANIFEST.MF".to_string(), data: vec![] },
            ArchiveEntry { path: "META-INF/CERT.SF".to_string(), data: vec![] },
            ArchiveEntry { path: "META-INF/CERT.RSA".to_string(), data: vec![] },
            ArchiveEntry { path: "entry.json".to_string(), data: entry_json.into_bytes() },
        ],
    };
    let mut s = Sync::new(default_repo(), SigningScheme::Entry, false, None);
    s.begin();
    s.step(Event::Head(Some("e2".to_string())));
    match s.step(Event::ArchiveExtracted(archive)) {
        Action::DownloadIndexFile(name) => assert_eq!(name, "index-v2.json"),
        _ => panic!("the entry must name the index file"),
    }
    let (stored, etag) = expect_store(s.step(Event::IndexFile(INDEX.to_vec())));
    assert_eq!(stored, INDEX.to_vec());
    assert_eq!(etag, "e2");
}

#[test]
fn index_file_digest_is_checked() {
    let reference = IndexReference {
        name: "index-v2.json".to_string(),
        sha256: hex::encode(sha2::Sha256::digest(INDEX)),
    };
    assert_eq!(check_index_file(&reference, INDEX.to_vec(), true), Ok(INDEX.to_vec()));
    assert_eq!(check_index_file(&reference, b"{}".to_vec(), true), Err(Error::DigestError));
    assert_eq!(check_index_file(&reference, b"{}".to_vec(), false), Ok(b"{}".to_vec()));
    let upper = IndexReference { name: String::new(), sha256: reference.sha256.to_uppercase() };
    assert_eq!(check_index_file(&upper, INDEX.to_vec(), true), Ok(INDEX.to_vec()));
    let bad = IndexReference { name: String::new(), sha256: "xyz".to_string() };
    assert_eq!(check_index_file(&bad, INDEX.to_vec(), true), Err(Error::SchemaError));
}

#[test]
fn entry_descriptor_fields() {
    let j = decode_json(br#"{"index":{"name":"//a/index-v2.json","sha256":"00"}}"#).unwrap();
    let r = index_reference(&j).unwrap();
    assert_eq!(r.name, "a/index-v2.json");
    assert_eq!(r.sha256, "00");
    let missing = decode_json(br#"{"index":{"name":"x"}}"#).unwrap();
    assert!(matches!(index_reference(&missing), Err(Error::SchemaError)));
    let not_string = decode_json(br#"{"index":{"name":1,"sha256":"00"}}"#).unwrap();
    assert!(matches!(index_reference(&not_string), Err(Error::SchemaError)));
}

#[test]
fn invalid_fingerprint_is_config_error() {
    let r = resolve_repository(Some("https://example.org?fingerprint=zz"));
    assert!(matches!(r, Err(Error::ConfigError)));
    assert!(matches!(resolve_repository(Some("https://example.org?fingerprint=abc")), Err(Error::ConfigError)));
    assert!(matches!(resolve_repository(Some("https://example.org?fingerprint=")), Err(Error::ConfigError)));
}

#[test]
fn repository_option_forms() {
    let d = resolve_repository(None).unwrap();
    assert_eq!(d.base_url, FDROID_REPO);
    assert_eq!(d.fingerprint, fdroid_index_fingerprint());
    assert_eq!(d.fingerprint.len(), 32);
    assert!(!d.is_custom);
    let c = resolve_repository(Some("https://example.org/repo?fingerprint=0aFF")).unwrap();
    assert_eq!(c.base_url, "https://example.org/repo");
    assert_eq!(c.fingerprint, vec![0x0a, 0xff]);
    assert!(c.is_custom);
    let p = resolve_repository(Some("https://example.org/repo")).unwrap();
    assert_eq!(p.base_url, "https://example.org/repo");
    assert_eq!(p.fingerprint, fdroid_index_fingerprint());
    assert!(p.is_custom);
}

#[test]
fn scheme_and_verification_options() {
    assert_eq!(scheme_from_option(None), SigningScheme::Entry);
    assert_eq!(scheme_from_option(Some("0")), SigningScheme::Legacy);
    assert_eq!(scheme_from_option(Some("FaLsE")), SigningScheme::Legacy);
    assert_eq!(scheme_from_option(Some("1")), SigningScheme::Entry);
    assert_eq!(scheme_from_option(Some("no")), SigningScheme::Entry);
    assert!(verification_from_option(None));
    assert!(!verification_from_option(Some("false")));
    assert!(verification_from_option(Some("False")));
}

#[test]
fn cache_locations() {
    assert!(cache_location(&default_repo()).is_empty());
    let a = resolve_repository(Some("https://a.example/repo")).unwrap();
    let b = resolve_repository(Some("https://b.example/repo")).unwrap();
    let la = cache_location(&a);
    let lb = cache_location(&b);
    assert_eq!(la.len(), 2);
    assert_eq!(la[0], "fdroid-custom-repos");
    assert_ne!(la[1], lb[1]);
    assert_eq!(la, cache_location(&a));
    assert_eq!(la[1], hex::encode(sha2::Sha256::digest(b"https://a.example/repo")));
}

#[test]
fn scheme_names() {
    assert_eq!(SigningScheme::Legacy.archive_name(), "index-v1.jar");
    assert_eq!(SigningScheme::Entry.archive_name(), "entry.jar");
    assert_eq!(SigningScheme::Legacy.etag_file_name(), "latest_etag");
    assert_eq!(SigningScheme::Entry.etag_file_name(), "latest_entry_etag");
    assert_eq!(SigningScheme::Legacy.index_file_name(), "index_v1.json");
    assert_eq!(SigningScheme::Entry.index_file_name(), "index.json");
    assert_eq!(SigningScheme::Legacy.digest(b"abc"), hex::decode("a9993e364706816aba3e25717850c26c9cd0d89d").unwrap());
    assert_eq!(
        SigningScheme::Entry.digest(b"abc"),
        hex::decode("ba7816bf8f01cfea414140de5dae2223b00361a396177a9cb410ff61f20015ad").unwrap()
    );
}
