//! Properties of verification and of the key cache, stated over the
//! specifications that the checks and the cache meet.

use vstd::prelude::*;
use crate::claims::{
    audience_matches, claims_error, domain_allowed, email_domain, issuer_accepted, policy_error,
    signed_claims_error,
    lists_name, AuthError, Audience, Claims,
};
use crate::keys::{is_fresh, plan_for, replaced, KeyPlan, KeyView};
use crate::signed::{step_follows, DecodeFailure, SigningAlgorithm, TokenHeader, VerifyEvent, VerifyStep};
use crate::text::ascii_eq_ic;

verus! {

/// A token whose signature was accepted and whose claims are unexpired, come from
/// an accepted issuer, name the expected audience, carry a verified email and
/// belong to the allowed domain is accepted, and the identity returned is
/// exactly its email and subject.
pub proof fn lemma_valid_claims_accepted(c: Claims, aud: Seq<char>, allowed: Seq<char>, now: u64, r: VerifyStep)
    requires
        c.exp is None || c.exp->0 > now,
        issuer_accepted(c.iss),
        audience_matches(c.aud, aud),
        c.email is Some,
        c.email_verified == Some(true),
        domain_allowed(c.email->0@, crate::claims::opt_view(c.hd), allowed),
        step_follows(VerifyEvent::SignatureChecked { unverified_exp: c.exp, outcome: Ok(c) }, aud, allowed, now, r),
    ensures
        signed_claims_error(c, aud, allowed, now) is None,
        claims_error(c, aud, allowed, now) is None,
        match r {
            VerifyStep::Done(Ok(u)) => u.email@ == c.email->0@ && u.sub@ == c.sub@,
            _ => false,
        },
{
}

/// A list audience that contains the expected audience passes exactly as a
/// single audience equal to it does.
pub proof fn lemma_audience_list_like_single(c: Claims, list: Vec<String>, single: String, aud: Seq<char>, allowed: Seq<char>, now: u64)
    requires
        lists_name(list@, aud),
        single@ == aud,
    ensures
        audience_matches(Audience::Many(list), aud),
        audience_matches(Audience::One(single), aud),
        claims_error(Claims { aud: Audience::Many(list), ..c }, aud, allowed, now)
            == claims_error(Claims { aud: Audience::One(single), ..c }, aud, allowed, now),
{
}

/// A token whose expiry is at or before the current time is rejected as expired,
/// whatever the signature check reported: the expiry read from the payload is
/// decided first. Checked without a signature, its claims fail as expired too.
pub proof fn lemma_expired_rejected(
    c: Claims,
    outcome: Result<Claims, DecodeFailure>,
    aud: Seq<char>,
    allowed: Seq<char>,
    now: u64,
    r: VerifyStep,
    s: VerifyStep,
)
    requires
        c.exp is Some,
        c.exp->0 <= now,
        step_follows(VerifyEvent::SignatureChecked { unverified_exp: c.exp, outcome }, aud, allowed, now, r),
        step_follows(VerifyEvent::PayloadRead(Ok(Some(c))), aud, allowed, now, s),
    ensures
        claims_error(c, aud, allowed, now) == Some(AuthError::Expired),
        signed_claims_error(c, aud, allowed, now) == Some(AuthError::Expired),
        r == VerifyStep::Done(Err(AuthError::Expired)),
        s == VerifyStep::Done(Err(AuthError::Expired)),
{
}

/// A header that declares any algorithm but RS256 ends verification as
/// malformed, and no key lookup is requested.
pub proof fn lemma_foreign_algorithm_rejected(h: TokenHeader, aud: Seq<char>, allowed: Seq<char>, now: u64, r: VerifyStep)
    requires
        h.alg != SigningAlgorithm::RS256,
        step_follows(VerifyEvent::HeaderRead(Some(h)), aud, allowed, now, r),
    ensures
        r == VerifyStep::Done(Err(AuthError::Malformed)),
        !(r is ResolveKey),
{
}

/// Without a hosted-domain claim, an email whose part after the last `@` equals
/// the allowed domain up to ASCII case passes the domain check.
pub proof fn lemma_email_suffix_domain(c: Claims, d: Seq<char>, allowed: Seq<char>)
    requires
        c.email is Some,
        c.email_verified == Some(true),
        c.hd is None,
        email_domain(c.email->0@) == Some(d),
        ascii_eq_ic(d, allowed),
    ensures
        domain_allowed(c.email->0@, None, allowed),
        policy_error(c, allowed) is None,
{
}

/// Claims that pass expiry and audience but whose email is not marked verified
/// are rejected as unverified, whatever their domain.
pub proof fn lemma_unverified_email_rejected(c: Claims, aud: Seq<char>, allowed: Seq<char>, now: u64)
    requires
        c.exp is None || c.exp->0 > now,
        audience_matches(c.aud, aud),
        c.email is Some,
        c.email_verified != Some(true),
    ensures
        claims_error(c, aud, allowed, now) == Some(AuthError::EmailNotVerified),
{
}

/// Two lookups of an unknown key each plan one fetch; whichever replacement
/// commits last leaves exactly its own key set and time, and a later lookup of
/// a key in that set within its lifetime is served without fetching.
pub proof fn lemma_racing_fetches(
    fetched_at: u64,
    keys: Map<Seq<char>, KeyView>,
    kid: Seq<char>,
    now: u64,
    first: Map<Seq<char>, KeyView>,
    second: Map<Seq<char>, KeyView>,
    t1: u64,
    t2: u64,
    later: u64,
)
    requires
        !keys.contains_key(kid),
        second.contains_key(kid),
        is_fresh(t2, later),
    ensures
        plan_for(fetched_at, keys, kid, false, now) == KeyPlan::Fetch,
        replaced(replaced((fetched_at, keys), first, t1), second, t2) == (t2, second),
        replaced(replaced((fetched_at, keys), second, t2), first, t1) == (t1, first),
        plan_for(t2, second, kid, false, later) == KeyPlan::UseCached,
{
}

} // verus!
