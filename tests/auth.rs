use base64::Engine;
use shortlink::claims::{apply_domain_checks, check_claims, Audience, AuthError, Claims};
use shortlink::keys::{JwkEntry, KeyCache, KeyPlan, KeySet, KEY_TTL_SECS};
use shortlink::signed::{
    check_header, next_step, DecodeFailure, SigningAlgorithm, TokenHeader, VerifyEvent, VerifyStep,
};
use shortlink::token::token_payload;

const NOW: u64 = 1_700_000_000;

fn encode(bytes: &[u8]) -> String {
    base64::engine::general_purpose::URL_SAFE_NO_PAD.encode(bytes)
}

fn token_with_payload(payload: &serde_json::Value) -> String {
    let header = encode(b"{\"alg\":\"none\"}");
    let payload = encode(payload.to_string().as_bytes());
    format!("{header}.{payload}.")
}

fn text(v: &serde_json::Value, key: &str) -> Option<String> {
    v.get(key).and_then(|x| x.as_str()).map(|s| s.to_string())
}

fn claims_from(bytes: &[u8]) -> Claims {
    let v: serde_json::Value = serde_json::from_slice(bytes).unwrap();
    let aud = match v.get("aud") {
        Some(serde_json::Value::String(s)) => Audience::One(s.clone()),
        Some(serde_json::Value::Array(a)) => {
            Audience::Many(a.iter().filter_map(|x| x.as_str().map(|s| s.to_string())).collect())
        }
        _ => Audience::Unsupported,
    };
    Claims {
        sub: text(&v, "sub").unwrap(),
        aud,
        exp: v.get("exp").and_then(|x| x.as_u64()),
        iss: text(&v, "iss"),
        email: text(&v, "email"),
        email_verified: v.get("email_verified").and_then(|x| x.as_bool()),
        hd: text(&v, "hd"),
    }
}

fn object(pairs: Vec<(&str, serde_json::Value)>) -> serde_json::Value {
    let mut m = serde_json::Map::new();
    for (k, v) in pairs {
        m.insert(k.to_string(), v);
    }
    serde_json::Value::Object(m)
}

fn s(x: &str) -> serde_json::Value {
    serde_json::Value::String(x.to_string())
}

fn verify_claims_only(tok: &str, aud: &str, domain: &str) -> Result<shortlink::claims::VerifiedUser, AuthError> {
    let bytes = token_payload(tok)?;
    check_claims(claims_from(&bytes), aud, domain, NOW)
}

fn claims(aud: Audience, email: &str, verified: Option<bool>, hd: Option<&str>, exp: Option<u64>) -> Claims {
    Claims {
        sub: "123".to_string(),
        aud,
        exp,
        iss: Some("https://accounts.google.com".to_string()),
        email: Some(email.to_string()),
        email_verified: verified,
        hd: hd.map(|h| h.to_string()),
    }
}

#[test]
fn verifies_domain_via_hd() {
    let exp = NOW + 300;
    let claims = object(vec![
        ("sub", s("123")),
        ("aud", s("client-1")),
        ("exp", serde_json::Value::from(exp)),
        ("email", s("user@acme.com")),
        ("email_verified", serde_json::Value::Bool(true)),
        ("hd", s("acme.com")),
    ]);
    let tok = token_with_payload(&claims);
    let u = verify_claims_only(&tok, "client-1", "acme.com").unwrap();
    assert_eq!(u.email, "user@acme.com");
    assert_eq!(u.sub, "123");
}

#[test]
fn audience_can_be_array() {
    let exp = NOW + 300;
    let claims = object(vec![
        ("sub", s("x")),
        ("aud", serde_json::Value::Array(vec![s("x"), s("y"), s("client-2")])),
        ("exp", serde_json::Value::from(exp)),
        ("email", s("u@acme.com")),
        ("email_verified", serde_json::Value::Bool(true)),
    ]);
    let tok = token_with_payload(&claims);
    assert!(verify_claims_only(&tok, "client-2", "acme.com").is_ok());
}

#[test]
fn rejects_wrong_domain() {
    let exp = NOW + 300;
    let claims = object(vec![
        ("sub", s("x")),
        ("aud", s("client-3")),
        ("exp", serde_json::Value::from(exp)),
        ("email", s("u@other.com")),
        ("email_verified", serde_json::Value::Bool(true)),
    ]);
    let tok = token_with_payload(&claims);
    let err = verify_claims_only(&tok, "client-3", "acme.com").unwrap_err();
    assert!(matches!(err, AuthError::DomainNotAllowed));
}

#[test]
fn token_framing_needs_three_segments_and_base64() {
    assert_eq!(token_payload("a.b").unwrap_err(), AuthError::Malformed);
    assert_eq!(token_payload("a.b.c.d").unwrap_err(), AuthError::Malformed);
    assert_eq!(token_payload("a.!!!.c").unwrap_err(), AuthError::Malformed);
    assert_eq!(token_payload("x.aGk.y").unwrap(), b"hi".to_vec());
    assert_eq!(token_payload("..").unwrap(), Vec::<u8>::new());
}

#[test]
fn expiry_at_now_is_expired() {
    let c = claims(Audience::One("a".to_string()), "u@acme.com", Some(true), None, Some(NOW));
    assert_eq!(check_claims(c, "a", "acme.com", NOW).unwrap_err(), AuthError::Expired);
    let c = claims(Audience::One("other".to_string()), "u@acme.com", Some(true), None, Some(NOW - 1));
    assert_eq!(check_claims(c, "a", "acme.com", NOW).unwrap_err(), AuthError::Expired);
    let c = claims(Audience::One("a".to_string()), "u@acme.com", Some(true), None, Some(NOW + 1));
    assert!(check_claims(c, "a", "acme.com", NOW).is_ok());
    let c = claims(Audience::One("a".to_string()), "u@acme.com", Some(true), None, None);
    assert!(check_claims(c, "a", "acme.com", NOW).is_ok());
}

#[test]
fn audience_mismatch_is_reported() {
    let c = claims(Audience::One("b".to_string()), "u@acme.com", Some(true), None, None);
    assert_eq!(check_claims(c, "a", "acme.com", NOW).unwrap_err(), AuthError::BadAudience);
    let c = claims(Audience::Many(vec!["x".to_string()]), "u@acme.com", Some(true), None, None);
    assert_eq!(check_claims(c, "a", "acme.com", NOW).unwrap_err(), AuthError::BadAudience);
    let c = claims(Audience::Unsupported, "u@acme.com", Some(true), None, None);
    assert_eq!(check_claims(c, "a", "acme.com", NOW).unwrap_err(), AuthError::BadAudience);
}

#[test]
fn email_must_be_present_and_verified() {
    let mut c = claims(Audience::One("a".to_string()), "u@acme.com", Some(true), None, None);
    c.email = None;
    assert_eq!(apply_domain_checks(c, "acme.com").unwrap_err(), AuthError::InvalidPayload("email"));
    let c = claims(Audience::One("a".to_string()), "u@acme.com", Some(false), None, None);
    assert_eq!(apply_domain_checks(c, "acme.com").unwrap_err(), AuthError::EmailNotVerified);
    let c = claims(Audience::One("a".to_string()), "u@acme.com", None, None, None);
    assert_eq!(apply_domain_checks(c, "acme.com").unwrap_err(), AuthError::EmailNotVerified);
}

#[test]
fn domain_by_email_suffix_ignores_case() {
    let c = claims(Audience::One("a".to_string()), "User@Acme.COM", Some(true), None, None);
    let u = apply_domain_checks(c, "acme.com").unwrap();
    assert_eq!(u.email, "User@Acme.COM");
    let c = claims(Audience::One("a".to_string()), "a@b@acme.com", Some(true), None, None);
    assert!(apply_domain_checks(c, "acme.com").is_ok());
    let c = claims(Audience::One("a".to_string()), "no-at-sign", Some(true), None, None);
    assert_eq!(apply_domain_checks(c, "acme.com").unwrap_err(), AuthError::DomainNotAllowed);
    let c = claims(Audience::One("a".to_string()), "u@acme.com", Some(true), Some("other.com"), None);
    assert_eq!(apply_domain_checks(c, "acme.com").unwrap_err(), AuthError::DomainNotAllowed);
    let c = claims(Audience::One("a".to_string()), "u@other.com", Some(true), Some("ACME.com"), None);
    assert!(apply_domain_checks(c, "acme.com").is_ok());
}

#[test]
fn header_must_pin_rs256_and_name_a_key() {
    let h = TokenHeader { alg: SigningAlgorithm::HS256, kid: Some("k".to_string()) };
    assert_eq!(check_header(Some(h)).unwrap_err(), AuthError::Malformed);
    let h = TokenHeader { alg: SigningAlgorithm::RS256, kid: None };
    assert_eq!(check_header(Some(h)).unwrap_err(), AuthError::Malformed);
    assert_eq!(check_header(None).unwrap_err(), AuthError::Malformed);
    let h = TokenHeader { alg: SigningAlgorithm::RS256, kid: Some("k1".to_string()) };
    assert_eq!(check_header(Some(h)).unwrap(), "k1");
}

#[test]
fn steps_follow_events() {
    assert!(matches!(
        next_step(VerifyEvent::Start { skip_signature: false }, "a", "acme.com", NOW),
        VerifyStep::ParseHeader
    ));
    assert!(matches!(
        next_step(VerifyEvent::Start { skip_signature: true }, "a", "acme.com", NOW),
        VerifyStep::ReadPayload
    ));
    let h = TokenHeader { alg: SigningAlgorithm::ES256, kid: Some("k".to_string()) };
    assert!(matches!(
        next_step(VerifyEvent::HeaderRead(Some(h)), "a", "acme.com", NOW),
        VerifyStep::Done(Err(AuthError::Malformed))
    ));
    let h = TokenHeader { alg: SigningAlgorithm::RS256, kid: Some("k".to_string()) };
    match next_step(VerifyEvent::HeaderRead(Some(h)), "a", "acme.com", NOW) {
        VerifyStep::ResolveKey(k) => assert_eq!(k, "k"),
        _ => panic!("expected a key lookup"),
    }
    assert!(matches!(
        next_step(VerifyEvent::KeyLookup(false), "a", "acme.com", NOW),
        VerifyStep::Done(Err(AuthError::Network))
    ));
    assert!(matches!(next_step(VerifyEvent::KeyLookup(true), "a", "acme.com", NOW), VerifyStep::CheckSignature));
    for (f, e) in [
        (DecodeFailure::InvalidToken, AuthError::SignatureInvalid),
        (DecodeFailure::InvalidSignature, AuthError::SignatureInvalid),
        (DecodeFailure::ExpiredSignature, AuthError::Expired),
        (DecodeFailure::InvalidAudience, AuthError::BadAudience),
        (DecodeFailure::Other, AuthError::Malformed),
    ] {
        let ev = VerifyEvent::SignatureChecked { unverified_exp: Some(NOW + 1), outcome: Err(f) };
        match next_step(ev, "a", "acme.com", NOW) {
            VerifyStep::Done(Err(got)) => assert_eq!(got, e),
            _ => panic!("expected a classified failure"),
        }
    }
    let c = claims(Audience::One("a".to_string()), "user@acme.com", Some(true), Some("acme.com"), Some(NOW + 300));
    let ev = VerifyEvent::SignatureChecked { unverified_exp: c.exp, outcome: Ok(c) };
    match next_step(ev, "a", "acme.com", NOW) {
        VerifyStep::Done(Ok(u)) => {
            assert_eq!(u.email, "user@acme.com");
            assert_eq!(u.sub, "123");
        }
        _ => panic!("expected a verified user"),
    }
}

fn jwk(kid: &str, kty: &str, n: Option<&str>, e: Option<&str>) -> JwkEntry {
    JwkEntry {
        kid: kid.to_string(),
        kty: kty.to_string(),
        alg: Some("RS256".to_string()),
        n: n.map(|x| x.to_string()),
        e: e.map(|x| x.to_string()),
    }
}

#[test]
fn key_document_skips_unusable_entries() {
    let doc = vec![
        jwk("good", "RSA", Some("AQAB"), Some("AQAB")),
        jwk("ec", "EC", Some("AQAB"), Some("AQAB")),
        jwk("no-n", "RSA", None, Some("AQAB")),
        jwk("bad-b64", "RSA", Some("!!"), Some("AQAB")),
    ];
    let set = KeySet::from_document(&doc);
    assert!(set.get("good").is_some());
    assert!(set.get("ec").is_none());
    assert!(set.get("no-n").is_none());
    assert!(set.get("bad-b64").is_none());
}

#[test]
fn cache_plans_follow_freshness() {
    let mut cache = KeyCache::new();
    assert_eq!(cache.plan("good", false, NOW), KeyPlan::Fetch);
    assert_eq!(cache.plan("good", true, NOW), KeyPlan::InstallOverride);
    let set = KeySet::from_document(&vec![jwk("good", "RSA", Some("AQAB"), Some("AQAB"))]);
    cache.replace(set, NOW);
    assert_eq!(cache.plan("good", false, NOW), KeyPlan::UseCached);
    assert_eq!(cache.plan("good", false, NOW + KEY_TTL_SECS - 1), KeyPlan::UseCached);
    assert_eq!(cache.plan("good", false, NOW + KEY_TTL_SECS), KeyPlan::Fetch);
    assert_eq!(cache.plan("other", false, NOW), KeyPlan::Fetch);
    assert!(cache.key("good").is_some());
    let second = KeySet::from_document(&vec![jwk("next", "RSA", Some("AQAB"), Some("AQAB"))]);
    cache.replace(second, NOW + 1);
    assert!(cache.key("good").is_none());
    assert!(cache.key("next").is_some());
    cache.reset();
    assert!(cache.key("next").is_none());
    assert_eq!(cache.plan("next", false, NOW), KeyPlan::Fetch);
}

#[test]
fn scenario_hosted_domain_identity() {
    let c = claims(Audience::One("client-1".to_string()), "user@acme.com", Some(true), Some("acme.com"), Some(NOW + 300));
    let u = check_claims(c, "client-1", "acme.com", NOW).unwrap();
    assert_eq!(u.email, "user@acme.com");
    assert_eq!(u.sub, "123");
}

#[test]
fn scenario_audience_list() {
    let aud = Audience::Many(vec!["x".to_string(), "y".to_string(), "client-2".to_string()]);
    let c = claims(aud, "user@acme.com", Some(true), Some("acme.com"), Some(NOW + 300));
    assert!(check_claims(c, "client-2", "acme.com", NOW).is_ok());
}

#[test]
fn scenario_other_domain_rejected() {
    let c = claims(Audience::One("client-1".to_string()), "u@other.com", Some(true), None, Some(NOW + 300));
    assert_eq!(check_claims(c, "client-1", "acme.com", NOW).unwrap_err(), AuthError::DomainNotAllowed);
}

fn done_err(ev: VerifyEvent) -> AuthError {
    match next_step(ev, "a", "acme.com", NOW) {
        VerifyStep::Done(Err(e)) => e,
        _ => panic!("expected a failure"),
    }
}

#[test]
fn expiry_is_decided_before_the_signature() {
    let ev = VerifyEvent::SignatureChecked {
        unverified_exp: Some(NOW),
        outcome: Err(DecodeFailure::InvalidSignature),
    };
    assert_eq!(done_err(ev), AuthError::Expired);
    let ev = VerifyEvent::SignatureChecked {
        unverified_exp: None,
        outcome: Err(DecodeFailure::InvalidSignature),
    };
    assert_eq!(done_err(ev), AuthError::SignatureInvalid);
}

#[test]
fn signed_claims_need_an_accepted_issuer() {
    let mut c = claims(Audience::One("a".to_string()), "u@acme.com", Some(true), None, None);
    c.iss = Some("https://evil.example".to_string());
    let ev = VerifyEvent::SignatureChecked { unverified_exp: None, outcome: Ok(c) };
    assert_eq!(done_err(ev), AuthError::Malformed);
    let mut c = claims(Audience::One("a".to_string()), "u@acme.com", Some(true), None, None);
    c.iss = None;
    let ev = VerifyEvent::SignatureChecked { unverified_exp: None, outcome: Ok(c) };
    assert_eq!(done_err(ev), AuthError::Malformed);
    let mut c = claims(Audience::One("a".to_string()), "u@acme.com", Some(true), None, None);
    c.iss = Some("accounts.google.com".to_string());
    let ev = VerifyEvent::SignatureChecked { unverified_exp: None, outcome: Ok(c) };
    assert!(matches!(next_step(ev, "a", "acme.com", NOW), VerifyStep::Done(Ok(_))));
}

#[test]
fn unverified_payload_path() {
    assert_eq!(done_err(VerifyEvent::PayloadRead(Err(AuthError::Malformed))), AuthError::Malformed);
    assert_eq!(done_err(VerifyEvent::PayloadRead(Ok(None))), AuthError::InvalidPayload("json"));
    let mut c = claims(Audience::One("a".to_string()), "u@acme.com", Some(true), None, None);
    c.iss = None;
    assert!(matches!(
        next_step(VerifyEvent::PayloadRead(Ok(Some(c))), "a", "acme.com", NOW),
        VerifyStep::Done(Ok(_))
    ));
}

#[test]
fn failed_fetch_serves_nothing() {
    let mut cache = KeyCache::new();
    let set = KeySet::from_document(&vec![jwk("good", "RSA", Some("AQAB"), Some("AQAB"))]);
    assert!(cache.commit_fetch(Some(set), "good", NOW));
    assert!(!cache.commit_fetch(None, "good", NOW + 1));
    assert!(cache.key("good").is_some());
    let other = KeySet::from_document(&vec![jwk("x", "RSA", Some("AQAB"), Some("AQAB"))]);
    assert!(!cache.commit_fetch(Some(other), "good", NOW + 2));
}
