//! Decisions of signature-checked verification, one step per event.
//!
//! The caller performs each requested step (read the header, resolve the key,
//! check the signature) and reports its outcome as the next event.

use vstd::prelude::*;
use crate::claims::{
    check_claims, check_signed_claims, claims_error, outcome_of, signed_claims_error, AuthError, Claims,
    VerifiedUser,
};

verus! {

/// Signing algorithm declared in a token header.
#[derive(Debug, Clone, Copy, PartialEq, Eq)]
pub enum SigningAlgorithm {
    HS256,
    HS384,
    HS512,
    ES256,
    ES384,
    RS256,
    RS384,
    RS512,
    PS256,
    PS384,
    PS512,
    EdDSA,
}

/// The untrusted header fields that gate verification.
pub struct TokenHeader {
    pub alg: SigningAlgorithm,
    pub kid: Option<String>,
}

/// Why the signature and structural check rejected a token.
#[derive(Debug, Clone, Copy, PartialEq, Eq)]
pub enum DecodeFailure {
    InvalidToken,
    InvalidSignature,
    ExpiredSignature,
    InvalidAudience,
    Other,
}

/// Outcome of the step that was last requested.
pub enum VerifyEvent {
    /// Verification begins; `skip_signature` is the development switch that
    /// checks the unverified claims only.
    Start { skip_signature: bool },
    /// The unverified payload: the framing failure, `None` when it is not a
    /// claim set, or its claims.
    PayloadRead(Result<Option<Claims>, AuthError>),
    /// The parsed header, or `None` when it could not be parsed.
    HeaderRead(Option<TokenHeader>),
    /// Whether a key was found for the requested key identifier.
    KeyLookup(bool),
    /// The outcome of the signature check, with the expiry read from the
    /// unverified payload (`None` when it has none or cannot be read).
    SignatureChecked { unverified_exp: Option<u64>, outcome: Result<Claims, DecodeFailure> },
}

/// What the caller must do next.
pub enum VerifyStep {
    /// Decode the payload without checking the signature.
    ReadPayload,
    ParseHeader,
    ResolveKey(String),
    CheckSignature,
    Done(Result<VerifiedUser, AuthError>),
}

/// The key identifier to resolve, or why the header is rejected.
pub open spec fn header_outcome(h: Option<TokenHeader>) -> Result<Seq<char>, AuthError> {
    match h {
        None => Err(AuthError::Malformed),
        Some(h) => if h.alg != SigningAlgorithm::RS256 {
            Err(AuthError::Malformed)
        } else {
            match h.kid {
                Some(k) => Ok(k@),
                None => Err(AuthError::Malformed),
            }
        },
    }
}

pub open spec fn failure_error(f: DecodeFailure) -> AuthError {
    match f {
        DecodeFailure::InvalidToken => AuthError::SignatureInvalid,
        DecodeFailure::InvalidSignature => AuthError::SignatureInvalid,
        DecodeFailure::ExpiredSignature => AuthError::Expired,
        DecodeFailure::InvalidAudience => AuthError::BadAudience,
        DecodeFailure::Other => AuthError::Malformed,
    }
}

/// `r` is the step that follows `ev`.
pub open spec fn step_follows(ev: VerifyEvent, expected_aud: Seq<char>, allowed: Seq<char>, now: u64, r: VerifyStep) -> bool {
    match ev {
        VerifyEvent::Start { skip_signature } => if skip_signature {
            r is ReadPayload
        } else {
            r is ParseHeader
        },
        VerifyEvent::PayloadRead(Err(e)) => r == VerifyStep::Done(Err(e)),
        VerifyEvent::PayloadRead(Ok(None)) => r == VerifyStep::Done(Err(AuthError::InvalidPayload("json"))),
        VerifyEvent::PayloadRead(Ok(Some(c))) => match r {
            VerifyStep::Done(out) => outcome_of(c, claims_error(c, expected_aud, allowed, now), out),
            _ => false,
        },
        VerifyEvent::HeaderRead(h) => match header_outcome(h) {
            Ok(kid) => match r {
                VerifyStep::ResolveKey(k) => k@ == kid,
                _ => false,
            },
            Err(e) => r == VerifyStep::Done(Err(e)),
        },
        VerifyEvent::KeyLookup(found) => if found {
            r is CheckSignature
        } else {
            r == VerifyStep::Done(Err(AuthError::Network))
        },
        VerifyEvent::SignatureChecked { unverified_exp, outcome } => if unverified_exp is Some
            && unverified_exp->0 <= now {
            r == VerifyStep::Done(Err(AuthError::Expired))
        } else {
            match outcome {
                Err(f) => r == VerifyStep::Done(Err(failure_error(f))),
                Ok(c) => match r {
                    VerifyStep::Done(out) => outcome_of(c, signed_claims_error(c, expected_aud, allowed, now), out),
                    _ => false,
                },
            }
        },
    }
}

/// Maps a rejection of the signature check to its classification.
pub fn classify_failure(f: DecodeFailure) -> (r: AuthError)
    ensures
        r == failure_error(f),
{
    match f {
        DecodeFailure::InvalidToken => AuthError::SignatureInvalid,
        DecodeFailure::InvalidSignature => AuthError::SignatureInvalid,
        DecodeFailure::ExpiredSignature => AuthError::Expired,
        DecodeFailure::InvalidAudience => AuthError::BadAudience,
        DecodeFailure::Other => AuthError::Malformed,
    }
}

/// Accepts a header only when it pins RS256 and names a key.
pub fn check_header(h: Option<TokenHeader>) -> (r: Result<String, AuthError>)
    ensures
        match r {
            Ok(k) => header_outcome(h) == Ok::<Seq<char>, AuthError>(k@),
            Err(e) => header_outcome(h) == Err::<Seq<char>, AuthError>(e),
        },
{
    match h {
        None => Err(AuthError::Malformed),
        Some(h) => match h.alg {
            SigningAlgorithm::RS256 => match h.kid {
                Some(k) => Ok(k),
                None => Err(AuthError::Malformed),
            },
            _ => Err(AuthError::Malformed),
        },
    }
}

/// The step that follows `event`, for a token expected to carry audience
/// `expected_aud` and to belong to `allowed_domain`, at time `now`.
pub fn next_step(event: VerifyEvent, expected_aud: &str, allowed_domain: &str, now: u64) -> (r: VerifyStep)
    ensures
        step_follows(event, expected_aud@, allowed_domain@, now, r),
{
    match event {
        VerifyEvent::Start { skip_signature } => if skip_signature {
            VerifyStep::ReadPayload
        } else {
            VerifyStep::ParseHeader
        },
        VerifyEvent::PayloadRead(Err(e)) => VerifyStep::Done(Err(e)),
        VerifyEvent::PayloadRead(Ok(None)) => VerifyStep::Done(Err(AuthError::InvalidPayload("json"))),
        VerifyEvent::PayloadRead(Ok(Some(c))) => VerifyStep::Done(check_claims(c, expected_aud, allowed_domain, now)),
        VerifyEvent::HeaderRead(h) => match check_header(h) {
            Ok(kid) => VerifyStep::ResolveKey(kid),
            Err(e) => VerifyStep::Done(Err(e)),
        },
        VerifyEvent::KeyLookup(found) => if found {
            VerifyStep::CheckSignature
        } else {
            VerifyStep::Done(Err(AuthError::Network))
        },
        VerifyEvent::SignatureChecked { unverified_exp, outcome } => {
            if let Some(x) = unverified_exp {
                if x <= now {
                    return VerifyStep::Done(Err(AuthError::Expired));
                }
            }
            match outcome {
                Err(f) => VerifyStep::Done(Err(classify_failure(f))),
                Ok(c) => VerifyStep::Done(check_signed_claims(c, expected_aud, allowed_domain, now)),
            }
        },
    }
}

} // verus!
