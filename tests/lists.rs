use apkeep::cli::{client_api_body, DownloadSource, OutputFormat, CLIENT_API_BODY_HEAD, CLIENT_API_BODY_TAIL};
use apkeep::csv::parse_csv_text;
use apkeep::error::{ConfigDirError, Error};
use apkeep::index::{retry_after, DownloadFailure};

fn pair(a: &str, v: Option<&str>) -> (String, Option<String>) {
    (a.to_string(), v.map(|s| s.to_string()))
}

#[test]
fn csv_single_column() {
    let r = parse_csv_text("com.a\ncom.b\n\n  com.c  \n".to_string(), 1, None);
    assert_eq!(r, vec![pair("com.a", None), pair("com.b", None), pair("com.c", None)]);
}

#[test]
fn csv_with_version_column() {
    let text = "x,com.a,1.0\r\ny,com.b,\nz,com.c\n".to_string();
    let r = parse_csv_text(text, 2, Some(3));
    assert_eq!(r, vec![pair("com.a", Some("1.0")), pair("com.b", None), pair("com.c", None)]);
}

#[test]
fn csv_version_before_app() {
    let r = parse_csv_text("2.0,com.a\n".to_string(), 2, Some(1));
    assert_eq!(r, vec![pair("com.a", Some("2.0"))]);
}

#[test]
fn csv_short_lines_are_skipped() {
    let r = parse_csv_text("a\nb,c\n".to_string(), 2, None);
    assert_eq!(r, vec![pair("c", None)]);
    assert!(parse_csv_text(String::new(), 1, None).is_empty());
    assert_eq!(parse_csv_text(",".to_string(), 1, None), vec![pair("", None)]);
}

#[test]
fn download_source_names() {
    for (d, n) in [
        (DownloadSource::APKPure, "apk-pure"),
        (DownloadSource::GooglePlay, "google-play"),
        (DownloadSource::FDroid, "f-droid"),
        (DownloadSource::HuaweiAppGallery, "huawei-app-gallery"),
    ] {
        assert_eq!(d.name(), n);
        assert_eq!(DownloadSource::from_str(n), Ok(d));
    }
    assert_eq!(DownloadSource::from_str("F-Droid"), Err("Invalid variant: F-Droid".to_string()));
}

#[test]
fn output_formats() {
    assert!(OutputFormat::Json.is_json());
    assert!(!OutputFormat::Json.is_plaintext());
    assert!(OutputFormat::Plaintext.is_plaintext());
    assert!(!OutputFormat::Plaintext.is_json());
}

#[test]
fn huawei_request_body() {
    let body = client_api_body("com.example.app");
    assert_eq!(body, format!("{}com.example.app{}", CLIENT_API_BODY_HEAD, CLIENT_API_BODY_TAIL));
    assert!(body.contains("%22package%22%3A%22com.example.app%22"));
    assert!(body.starts_with("agVersion=12.0.1&"));
    assert!(body.ends_with("versionCode=120001301"));
}

#[test]
fn error_names() {
    assert_eq!(Error::TrustError.name(), "TrustError");
    assert_eq!(Error::DigestError.name(), "DigestError");
    assert_eq!(ConfigDirError::NotFound.name(), "NotFound");
    assert_eq!(ConfigDirError::CouldNotCreate.name(), "CouldNotCreate");
    assert_eq!(ConfigDirError::NotFound.to_error(), Error::ConfigError);
}

#[test]
fn download_retry_policy() {
    assert!(retry_after(DownloadFailure::Other, 1));
    assert!(!retry_after(DownloadFailure::FileExists, 1));
    assert!(!retry_after(DownloadFailure::PermissionDenied, 1));
    assert!(retry_after(DownloadFailure::FileExists, 2));
    assert!(retry_after(DownloadFailure::Other, 2));
    assert!(!retry_after(DownloadFailure::Other, 3));
}
