use shortlink::config::{
    bypass_setting, check_auth_settings, is_truthy, matches_ignore_case, AuthProvider, LogFormat,
    StorageProvider,
};

#[test]
fn auth_provider_parsing() {
    assert_eq!(AuthProvider::from_str("none"), AuthProvider::DebugHeader);
    assert_eq!(AuthProvider::from_str("NONE"), AuthProvider::DebugHeader);
    assert_eq!(AuthProvider::from_str("google"), AuthProvider::Google);
    assert_eq!(AuthProvider::from_str("GOOGLE"), AuthProvider::Google);
    assert_eq!(AuthProvider::from_str("anything"), AuthProvider::DebugHeader);
}

#[test]
fn storage_provider_parsing() {
    assert_eq!(StorageProvider::from_str("memory"), StorageProvider::Memory);
    assert_eq!(StorageProvider::from_str("sqlite"), StorageProvider::Sqlite);
    assert_eq!(StorageProvider::from_str("SQLITE"), StorageProvider::Sqlite);
    assert_eq!(StorageProvider::from_str("anything"), StorageProvider::Memory);
}

#[test]
fn log_format_parsing() {
    assert_eq!(LogFormat::from_str("pretty"), LogFormat::Pretty);
    assert_eq!(LogFormat::from_str("json"), LogFormat::Json);
    assert_eq!(LogFormat::from_str("JSON"), LogFormat::Json);
    assert_eq!(LogFormat::from_str("anything"), LogFormat::Pretty);
}

#[test]
fn truthy_flags() {
    assert!(is_truthy(Some("1")));
    assert!(is_truthy(Some("TRUE")));
    assert!(is_truthy(Some("Yes")));
    assert!(is_truthy(Some("on")));
    assert!(!is_truthy(Some("0")));
    assert!(!is_truthy(Some("")));
    assert!(!is_truthy(None));
    assert!(matches_ignore_case("AbC", &["x", "abc"]));
    assert!(!matches_ignore_case("abc", &[]));
}

#[test]
fn bypass_setting_reads_lowercase() {
    assert!(bypass_setting("TRUE"));
    assert!(bypass_setting("1"));
    assert!(!bypass_setting("on"));
}

#[test]
fn auth_settings_need_domain_and_client() {
    assert!(check_auth_settings(AuthProvider::DebugHeader, &None, &None).is_ok());
    let e = check_auth_settings(AuthProvider::Google, &None, &Some("c".to_string())).unwrap_err();
    assert_eq!(e.field, "ALLOWED_DOMAIN");
    let e = check_auth_settings(AuthProvider::Google, &Some("acme.com".to_string()), &None).unwrap_err();
    assert_eq!(e.field, "GOOGLE_OAUTH_CLIENT_ID");
    assert!(check_auth_settings(
        AuthProvider::Google,
        &Some("acme.com".to_string()),
        &Some("c".to_string())
    )
    .is_ok());
}
