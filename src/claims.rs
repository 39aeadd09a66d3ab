//! Claim model of an identity token and the policy checks applied to it.

use vstd::prelude::*;
use crate::text::{ascii_eq_ic, eq_ignore_ascii_case, find_last, last_index_of, lemma_last_index_bounds, owned, str_eq};

verus! {

/// Identity produced once every structural and policy check has passed.
#[derive(Debug, Clone, PartialEq, Eq)]
pub struct VerifiedUser {
    pub email: String,
    pub sub: String,
}

/// Classified verification failure; exactly one is reported per failed call.
#[derive(Debug, PartialEq, Eq)]
pub enum AuthError {
    Malformed,
    InvalidPayload(&'static str),
    SignatureInvalid,
    Expired,
    BadAudience,
    EmailNotVerified,
    DomainNotAllowed,
    Network,
}

impl AuthError {
    /// Stable description of the failure, safe to show to callers.
    pub fn message(&self) -> (r: String)
        ensures
            r@ == match self {
                AuthError::Malformed => "missing or malformed token"@,
                AuthError::InvalidPayload(what) => "invalid token payload: "@ + what@,
                AuthError::SignatureInvalid => "signature invalid"@,
                AuthError::Expired => "token expired"@,
                AuthError::BadAudience => "audience mismatch"@,
                AuthError::EmailNotVerified => "email not verified"@,
                AuthError::DomainNotAllowed => "domain not allowed"@,
                AuthError::Network => "network or jwks fetch error"@,
            },
    {
        match self {
            AuthError::Malformed => owned("missing or malformed token"),
            AuthError::InvalidPayload(what) => owned("invalid token payload: ").concat(what),
            AuthError::SignatureInvalid => owned("signature invalid"),
            AuthError::Expired => owned("token expired"),
            AuthError::BadAudience => owned("audience mismatch"),
            AuthError::EmailNotVerified => owned("email not verified"),
            AuthError::DomainNotAllowed => owned("domain not allowed"),
            AuthError::Network => owned("network or jwks fetch error"),
        }
    }
}

/// The `aud` claim: a single string, a list (its string members), or any other shape.
pub enum Audience {
    One(String),
    Many(Vec<String>),
    Unsupported,
}

/// The claims that verification reads from a token payload.
pub struct Claims {
    pub sub: String,
    pub aud: Audience,
    /// Expiry in seconds since the Unix epoch; absent means no expiry.
    pub exp: Option<u64>,
    pub iss: Option<String>,
    pub email: Option<String>,
    pub email_verified: Option<bool>,
    pub hd: Option<String>,
}

pub open spec fn opt_view(o: Option<String>) -> Option<Seq<char>> {
    match o {
        Some(s) => Some(s@),
        None => None,
    }
}

/// Some member of `v` equals `name`.
pub open spec fn lists_name(v: Seq<String>, name: Seq<char>) -> bool {
    exists|i: int| 0 <= i < v.len() && (#[trigger] v[i])@ == name
}

/// The audience claim names `expected`, as its single value or as a member of its list.
pub open spec fn audience_matches(aud: Audience, expected: Seq<char>) -> bool {
    match aud {
        Audience::One(s) => s@ == expected,
        Audience::Many(v) => lists_name(v@, expected),
        Audience::Unsupported => false,
    }
}

/// Part of an email address after its last `@`, when it has one.
pub open spec fn email_domain(email: Seq<char>) -> Option<Seq<char>> {
    let k = last_index_of(email, '@');
    if k >= 0 {
        Some(email.subrange(k + 1, email.len() as int))
    } else {
        None
    }
}

/// The hosted domain when present, else the email's domain, equals `allowed` up to ASCII case.
pub open spec fn domain_allowed(email: Seq<char>, hd: Option<Seq<char>>, allowed: Seq<char>) -> bool {
    match hd {
        Some(h) => ascii_eq_ic(h, allowed),
        None => match email_domain(email) {
            Some(d) => ascii_eq_ic(d, allowed),
            None => false,
        },
    }
}

/// First policy failure of `c` against `allowed`, in the order email, verified flag, domain.
pub open spec fn policy_error(c: Claims, allowed: Seq<char>) -> Option<AuthError> {
    match c.email {
        None => Some(AuthError::InvalidPayload("email")),
        Some(email) => if c.email_verified != Some(true) {
            Some(AuthError::EmailNotVerified)
        } else if !domain_allowed(email@, opt_view(c.hd), allowed) {
            Some(AuthError::DomainNotAllowed)
        } else {
            None
        },
    }
}

/// First failure of `c`: expiry against `now`, then audience, then the policy checks.
pub open spec fn claims_error(c: Claims, expected_aud: Seq<char>, allowed: Seq<char>, now: u64) -> Option<AuthError> {
    if c.exp is Some && c.exp->0 <= now {
        Some(AuthError::Expired)
    } else if !audience_matches(c.aud, expected_aud) {
        Some(AuthError::BadAudience)
    } else {
        policy_error(c, allowed)
    }
}

/// Issuer of identity tokens, bare form.
pub const ISSUER: &'static str = "accounts.google.com";

/// Issuer of identity tokens, URL form.
pub const ISSUER_URL: &'static str = "https://accounts.google.com";

/// The token names one of the accepted issuers.
pub open spec fn issuer_accepted(iss: Option<String>) -> bool {
    match iss {
        Some(i) => i@ == ISSUER@ || i@ == ISSUER_URL@,
        None => false,
    }
}

/// First failure of the claims of a token whose signature was accepted: expiry,
/// then issuer (a missing or foreign issuer is malformed), then as `claims_error`.
pub open spec fn signed_claims_error(c: Claims, expected_aud: Seq<char>, allowed: Seq<char>, now: u64) -> Option<AuthError> {
    if c.exp is Some && c.exp->0 <= now {
        Some(AuthError::Expired)
    } else if !issuer_accepted(c.iss) {
        Some(AuthError::Malformed)
    } else {
        claims_error(c, expected_aud, allowed, now)
    }
}

/// The outcome that a check with first failure `err` must have on claims `c`.
pub open spec fn outcome_of(c: Claims, err: Option<AuthError>, r: Result<VerifiedUser, AuthError>) -> bool {
    match r {
        Ok(u) => err is None && c.email is Some && u.email@ == c.email->0@ && u.sub@ == c.sub@,
        Err(e) => err == Some(e),
    }
}

pub fn audience_ok(aud: &Audience, expected: &str) -> (r: bool)
    ensures
        r == audience_matches(*aud, expected@),
{
    match aud {
        Audience::One(s) => str_eq(s.as_str(), expected),
        Audience::Many(v) => {
            let mut i: usize = 0;
            while i < v.len()
                invariant
                    i <= v.len(),
                    *aud == Audience::Many(*v),
                    forall|j: int| 0 <= j < i ==> (#[trigger] v@[j])@ != expected@,
                decreases v.len() - i,
            {
                if str_eq(v[i].as_str(), expected) {
                    assert(v@[i as int]@ == expected@);
                    return true;
                }
                i += 1;
            }
            false
        },
        Audience::Unsupported => false,
    }
}

pub fn domain_ok(email: &str, hd: &Option<String>, allowed: &str) -> (r: bool)
    ensures
        r == domain_allowed(email@, opt_view(*hd), allowed@),
{
    match hd {
        Some(h) => eq_ignore_ascii_case(h.as_str(), allowed),
        None => match find_last(email, '@') {
            Some(k) => {
                proof {
                    lemma_last_index_bounds(email@, '@');
                }
                let n = email.unicode_len();
                let d = email.substring_char(k + 1, n);
                eq_ignore_ascii_case(d, allowed)
            },
            None => false,
        },
    }
}

/// Policy checks on structurally valid claims: an email must be present, marked
/// verified, and belong to `allowed_domain` (by hosted domain, else by email suffix).
pub fn apply_domain_checks(claims: Claims, allowed_domain: &str) -> (r: Result<VerifiedUser, AuthError>)
    ensures
        outcome_of(claims, policy_error(claims, allowed_domain@), r),
{
    let ghost c = claims;
    let Claims { sub, aud: _, exp: _, iss: _, email, email_verified, hd } = claims;
    let email = match email {
        Some(e) => e,
        None => return Err(AuthError::InvalidPayload("email")),
    };
    let verified = match email_verified {
        Some(b) => b,
        None => false,
    };
    if !verified {
        return Err(AuthError::EmailNotVerified);
    }
    if !domain_ok(email.as_str(), &hd, allowed_domain) {
        return Err(AuthError::DomainNotAllowed);
    }
    Ok(VerifiedUser { email, sub })
}

/// Structural and policy checks on decoded claims: expiry (an expiry at or
/// before `now` fails), audience, then the policy checks.
pub fn check_claims(claims: Claims, expected_aud: &str, allowed_domain: &str, now: u64) -> (r: Result<VerifiedUser, AuthError>)
    ensures
        outcome_of(claims, claims_error(claims, expected_aud@, allowed_domain@, now), r),
{
    if let Some(exp) = claims.exp {
        if exp <= now {
            return Err(AuthError::Expired);
        }
    }
    if !audience_ok(&claims.aud, expected_aud) {
        return Err(AuthError::BadAudience);
    }
    apply_domain_checks(claims, allowed_domain)
}

/// Whether the issuer claim names an accepted issuer.
pub fn issuer_ok(iss: &Option<String>) -> (r: bool)
    ensures
        r == issuer_accepted(*iss),
{
    match iss {
        Some(i) => str_eq(i.as_str(), ISSUER) || str_eq(i.as_str(), ISSUER_URL),
        None => false,
    }
}

/// Checks the claims of a token whose signature was accepted: expiry, issuer,
/// audience, then the policy checks.
pub fn check_signed_claims(claims: Claims, expected_aud: &str, allowed_domain: &str, now: u64) -> (r: Result<VerifiedUser, AuthError>)
    ensures
        outcome_of(claims, signed_claims_error(claims, expected_aud@, allowed_domain@, now), r),
{
    if let Some(exp) = claims.exp {
        if exp <= now {
            return Err(AuthError::Expired);
        }
    }
    if !issuer_ok(&claims.iss) {
        return Err(AuthError::Malformed);
    }
    check_claims(claims, expected_aud, allowed_domain, now)
}

} // verus!
