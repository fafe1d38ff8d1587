use apkeep::error::Error;
use apkeep::index::parse_json_for_download_information;
use apkeep::json::{decode_json, Json};
use apkeep::versions::parse_json_display_versions;

const LIST_INDEX: &[u8] = br#"{
  "repo": {"address": "https://f-droid.org/repo"},
  "packages": {
    "org.mozilla.fennec_fdroid": [
      {"versionName": "107.0.0", "versionCode": 1070020, "apkName": "fennec_107.apk", "hash": "aabb", "nativecode": ["arm64-v8a"]},
      {"versionName": "107.0.0", "versionCode": 1070000, "apkName": "fennec_107_x86.apk", "hash": "ccdd", "nativecode": ["x86"]},
      {"versionName": "106.3.0", "versionCode": 1063020, "apkName": "fennec_106.apk", "hash": "0102", "nativecode": ["arm64-v8a"]}
    ],
    "org.example.other": [
      {"versionName": "1.0", "versionCode": 1, "apkName": "other_1.apk", "hash": "ff"}
    ]
  }
}"#;

const MAP_INDEX: &[u8] = br#"{
  "repo": {"address": "https://mirror.example/repo"},
  "packages": {
    "org.mozilla.fennec_fdroid": {
      "versions": {
        "b": {"manifest": {"versionName": "106.3.0", "versionCode": 1063020, "nativecode": ["arm64-v8a"]},
              "file": {"name": "/fennec_106.apk", "sha256": "0102"}},
        "a": {"manifest": {"versionName": "107.0.0", "versionCode": 1070020, "nativecode": ["arm64-v8a"]},
              "file": {"name": "/fennec_107.apk", "sha256": "aabb"}},
        "c": {"manifest": {"versionName": "107.0.0", "versionCode": 1070000, "nativecode": ["x86"]},
              "file": {"name": "/fennec_107_x86.apk", "sha256": "ccdd"}}
      }
    },
    "org.example.other": {"versions": {}}
  }
}"#;

fn req(app: &str, version: Option<&str>) -> (String, Option<String>) {
    (app.to_string(), version.map(|v| v.to_string()))
}

fn index(b: &[u8]) -> Json {
    decode_json(b).unwrap()
}

#[test]
fn fennec_versions_resolve() {
    for (text, latest, older) in [
        (LIST_INDEX, "fennec_107.apk", "fennec_106.apk"),
        (MAP_INDEX, "/fennec_107.apk", "/fennec_106.apk"),
    ] {
        let apps = vec![
            req("org.mozilla.fennec_fdroid", None),
            req("org.mozilla.fennec_fdroid", Some("106.3.0")),
            req("org.mozilla.fennec_fdroid", Some("99.0.0")),
            req("org.mozilla.fennec_fdroid", None),
        ];
        let info = parse_json_for_download_information(&index(text), &apps, &None).unwrap();
        assert_eq!(info.packages.len(), 4);
        let first = info.packages[0].as_ref().unwrap();
        assert_eq!(first.filename, latest);
        assert_eq!(first.hash, vec![0xaa, 0xbb]);
        assert_eq!(first.app_id, "org.mozilla.fennec_fdroid");
        assert_eq!(first.version, None);
        let second = info.packages[1].as_ref().unwrap();
        assert_eq!(second.filename, older);
        assert_eq!(second.hash, vec![0x01, 0x02]);
        assert_eq!(second.version, Some("106.3.0".to_string()));
        assert!(info.packages[2].is_none());
        assert_eq!(info.packages[3].as_ref().unwrap().filename, latest);
    }
}

#[test]
fn missing_app_leaves_others() {
    let apps = vec![req("org.unknown", None), req("org.example.other", Some("1.0"))];
    let info = parse_json_for_download_information(&index(LIST_INDEX), &apps, &None).unwrap();
    assert!(info.packages[0].is_none());
    let other = info.packages[1].as_ref().unwrap();
    assert_eq!(other.filename, "other_1.apk");
    assert_eq!(other.hash, vec![0xff]);
    assert_eq!(info.repo_address, "https://f-droid.org/repo");
}

#[test]
fn abi_filter_selects_matching_build() {
    let arch = Some("x86".to_string());
    let apps = vec![req("org.mozilla.fennec_fdroid", None), req("org.mozilla.fennec_fdroid", Some("106.3.0"))];
    let list = parse_json_for_download_information(&index(LIST_INDEX), &apps, &arch).unwrap();
    assert_eq!(list.packages[0].as_ref().unwrap().filename, "fennec_107_x86.apk");
    assert!(list.packages[1].is_none());
    let map = parse_json_for_download_information(&index(MAP_INDEX), &apps, &arch).unwrap();
    assert_eq!(map.packages[0].as_ref().unwrap().filename, "/fennec_107_x86.apk");
    assert_eq!(map.packages[0].as_ref().unwrap().hash, vec![0xcc, 0xdd]);
    assert!(map.packages[1].is_none());
    let other = parse_json_for_download_information(&index(LIST_INDEX), &vec![req("org.example.other", None)], &arch).unwrap();
    assert!(other.packages[0].is_none());
}

#[test]
fn empty_version_map_is_not_found() {
    let info = parse_json_for_download_information(&index(MAP_INDEX), &vec![req("org.example.other", None)], &None).unwrap();
    assert!(info.packages[0].is_none());
    assert_eq!(info.repo_address, "https://mirror.example/repo");
}

#[test]
fn malformed_index_is_schema_error() {
    let apps = vec![req("a", None)];
    for text in [
        &br#"[]"#[..],
        br#"{"packages": {}}"#,
        br#"{"repo": {"address": 1}, "packages": {}}"#,
        br#"{"repo": {"address": "x"}, "packages": []}"#,
        br#"{"repo": {"address": "x"}}"#,
    ] {
        let r = parse_json_for_download_information(&index(text), &apps, &None);
        assert!(matches!(r, Err(Error::SchemaError)));
    }
}

#[test]
fn bad_hash_skips_entry() {
    let text = br#"{"repo": {"address": "x"}, "packages": {"a": [
        {"versionName": "2", "apkName": "a2.apk", "hash": "zz"},
        {"versionName": "1", "apkName": "a1.apk", "hash": "01"}]}}"#;
    let info = parse_json_for_download_information(&index(text), &vec![req("a", None)], &None).unwrap();
    assert_eq!(info.packages[0].as_ref().unwrap().filename, "a1.apk");
}

#[test]
fn json_model() {
    assert!(decode_json(b"{").is_none());
    assert!(decode_json(b"").is_none());
    let j = decode_json(br#"{"n": 7, "s": "t", "b": true, "z": null, "m": -1}"#).unwrap();
    assert!(matches!(j.get("n"), Some(Json::Number(Some(7)))));
    assert!(matches!(j.get("m"), Some(Json::Number(None))));
    assert_eq!(j.get("s").and_then(|v| v.as_str()).map(|s| s.as_str()), Some("t"));
    assert!(matches!(j.get("b"), Some(Json::Bool(true))));
    assert!(matches!(j.get("z"), Some(Json::Null)));
    assert!(j.get("absent").is_none());
}

#[test]
fn versions_are_listed_sorted_and_unique() {
    let apps = vec![req("org.mozilla.fennec_fdroid", None), req("org.unknown", None), req("org.example.other", None)];
    let list = parse_json_display_versions(&index(LIST_INDEX), &apps).unwrap();
    assert_eq!(list[0], Some(vec!["106.3.0".to_string(), "107.0.0".to_string()]));
    assert_eq!(list[1], None);
    assert_eq!(list[2], Some(vec!["1.0".to_string()]));
    let map = parse_json_display_versions(&index(MAP_INDEX), &apps).unwrap();
    assert_eq!(map[0], Some(vec!["106.3.0".to_string(), "107.0.0".to_string()]));
    assert_eq!(map[2], Some(vec![]));
    let text = br#"{"packages": {"a": [{"versionName": "b"}, {"versionName": "B"}, {"versionName": "ab"}, {"versionName": "a"}, {"versionName": "b"}]}}"#;
    let order = parse_json_display_versions(&index(text), &vec![req("a", None)]).unwrap();
    assert_eq!(order[0], Some(vec!["B".to_string(), "a".to_string(), "ab".to_string(), "b".to_string()]));
    assert!(matches!(parse_json_display_versions(&index(b"{}"), &apps), Err(Error::SchemaError)));
}
