use shortlink::http_common::{
    build_short_url_from_host, default_error_message, generate_id, html_escape, is_admin,
    is_valid_alias, parse_limit_query, parse_query_param, parse_rfc3339,
};

#[test]
fn test_is_valid_alias() {
    assert!(is_valid_alias("abc123"));
    assert!(is_valid_alias("A0zZ9"));
    assert!(is_valid_alias("my-slug"));
    assert!(is_valid_alias("my_slug"));
    assert!(is_valid_alias("mix-ed_123"));
    assert!(!is_valid_alias("ab"));
    assert!(!is_valid_alias(&"a".repeat(33)));
    assert!(!is_valid_alias("bad!slug"));
    assert!(!is_valid_alias("has space"));
}

#[test]
fn test_parse_limit_query() {
    assert_eq!(parse_limit_query(Some("limit=1")), Some(1));
    assert_eq!(parse_limit_query(Some("limit=500")), Some(500));
    assert_eq!(parse_limit_query(Some("limit=0")), None);
    assert_eq!(parse_limit_query(Some("limit=501")), None);
    assert_eq!(parse_limit_query(Some("page_token=x&limit=42")), Some(42));
    assert_eq!(parse_limit_query(None), None);
}

#[test]
fn test_parse_query_param() {
    assert_eq!(parse_query_param(Some("foo=bar"), "foo"), Some("bar".to_string()));
    assert_eq!(
        parse_query_param(Some("created_by=user%40example.com"), "created_by"),
        Some("user@example.com".to_string())
    );
    assert_eq!(
        parse_query_param(Some("limit=10&created_by=test%40test.com"), "created_by"),
        Some("test@test.com".to_string())
    );
    assert_eq!(parse_query_param(Some("foo=bar"), "missing"), None);
    assert_eq!(parse_query_param(None, "foo"), None);
}

#[test]
fn limit_query_edge_cases() {
    assert_eq!(parse_limit_query(Some("limit=+7")), Some(7));
    assert_eq!(parse_limit_query(Some("limit=abc&limit=9")), Some(9));
    assert_eq!(parse_limit_query(Some("limit")), None);
    assert_eq!(parse_limit_query(Some("limit=99999999999999999999999")), None);
    assert_eq!(parse_limit_query(Some("limit=007")), Some(7));
}

#[test]
fn query_param_decodes_spaces_and_keeps_first() {
    assert_eq!(parse_query_param(Some("q=a%20b&q=c"), "q"), Some("a b".to_string()));
    assert_eq!(parse_query_param(Some("q&q=x=y"), "q"), Some("x=y".to_string()));
    assert_eq!(parse_query_param(Some("q=%41"), "q"), Some("%41".to_string()));
}

#[test]
fn generated_id_has_time_and_mix() {
    let ts: u64 = 0x1_8d4f_1234;
    let id = generate_id(ts);
    let expected_mix = ((ts ^ 0xDEAD_BEEF) as u32).wrapping_mul(1103515245).wrapping_add(12345);
    assert_eq!(id, format!("18d4f1234_{:08x}", expected_mix));
    let zero = generate_id(0);
    let mix0 = (0xDEAD_BEEFu32).wrapping_mul(1103515245).wrapping_add(12345);
    assert_eq!(zero, format!("0_{:08x}", mix0));
}

#[test]
fn rfc3339_parses_to_epoch_seconds() {
    assert_eq!(parse_rfc3339("1970-01-01T00:00:00Z").unwrap(), 0);
    assert_eq!(parse_rfc3339("2023-11-14T22:13:20Z").unwrap(), 1_700_000_000);
    assert_eq!(parse_rfc3339("2023-11-15T00:13:20+02:00").unwrap(), 1_700_000_000);
    assert!(parse_rfc3339("not a date").is_err());
}

#[test]
fn test_build_short_url_from_host() {
    assert_eq!(build_short_url_from_host(None, "example.com", "abc"), "https://example.com/abc");
    assert_eq!(build_short_url_from_host(None, "", "abc"), "/abc");
}

#[test]
fn short_url_prefers_configured_domain() {
    assert_eq!(build_short_url_from_host(Some("https://s.io//"), "example.com", "abc"), "https://s.io/abc");
    assert_eq!(build_short_url_from_host(Some(""), "example.com", "abc"), "https://example.com/abc");
}

#[test]
fn error_codes_have_default_messages() {
    assert_eq!(default_error_message("not_found"), "Resource not found");
    assert_eq!(default_error_message("internal"), "Internal server error");
    assert_eq!(default_error_message("error"), "Internal server error");
    assert_eq!(default_error_message("custom_error"), "custom_error");
}

#[test]
fn admin_list_is_trimmed_and_case_blind() {
    assert!(is_admin("a@e.com, Boss@E.com", "boss@e.com"));
    assert!(!is_admin("a@e.com,b@e.com", "c@e.com"));
    assert!(!is_admin("", "a@e.com"));
}

#[test]
fn html_is_escaped() {
    assert_eq!(html_escape("<a href=\"x\">Tom & Jerry's</a>"), "&lt;a href=&quot;x&quot;&gt;Tom &amp; Jerry&#x27;s&lt;/a&gt;");
    assert_eq!(html_escape("plain"), "plain");
}
