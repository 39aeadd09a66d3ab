//! Framing of a compact token: three dot-separated segments, the middle one
//! holding the payload in unpadded URL-safe base64.

use vstd::prelude::*;
use crate::claims::AuthError;
use crate::text::{count_of, first_index_of, last_index_of, lemma_count_first, lemma_last_index_bounds};

verus! {

/// The bytes that unpadded URL-safe base64 text `s` encodes, if it is valid.
pub uninterp spec fn b64url_decoded(s: Seq<char>) -> Option<Seq<u8>>;

/// Relies on base64's `URL_SAFE_NO_PAD` engine `decode`: the bytes that the text
/// encodes, or an error when it is not valid unpadded URL-safe base64.
#[verifier::external_body]
pub(crate) fn b64url_decode(s: &str) -> (r: Option<Vec<u8>>)
    ensures
        match r {
            Some(v) => b64url_decoded(s@) == Some(v@),
            None => b64url_decoded(s@) is None,
        },
{
    base64::Engine::decode(&base64::engine::general_purpose::URL_SAFE_NO_PAD, s.as_bytes()).ok()
}

/// The middle segment of `t` when `t` splits on `.` into exactly three segments.
pub open spec fn payload_segment(t: Seq<char>) -> Option<Seq<char>> {
    if count_of(t, '.') == 2 {
        Some(t.subrange(first_index_of(t, '.') + 1, last_index_of(t, '.')))
    } else {
        None
    }
}

/// The decoded payload of token `t`, or the malformed-token failure.
pub open spec fn payload_of(t: Seq<char>) -> Result<Seq<u8>, AuthError> {
    match payload_segment(t) {
        None => Err(AuthError::Malformed),
        Some(p) => match b64url_decoded(p) {
            Some(b) => Ok(b),
            None => Err(AuthError::Malformed),
        },
    }
}

/// Splits `token` into its three segments and decodes the payload segment.
pub fn token_payload(token: &str) -> (r: Result<Vec<u8>, AuthError>)
    ensures
        match r {
            Ok(b) => payload_of(token@) == Ok::<Seq<u8>, AuthError>(b@),
            Err(e) => payload_of(token@) == Err::<Seq<u8>, AuthError>(e),
        },
{
    let n = token.unicode_len();
    let mut i: usize = 0;
    let mut dots: usize = 0;
    let mut first: usize = 0;
    let mut last: usize = 0;
    while i < n
        invariant
            n == token@.len(),
            i <= n,
            dots as nat == count_of(token@.subrange(0, i as int), '.'),
            dots <= i,
            dots > 0 ==> first as int == first_index_of(token@.subrange(0, i as int), '.'),
            dots == 0 ==> first_index_of(token@.subrange(0, i as int), '.') == -1,
            dots > 0 ==> last as int == last_index_of(token@.subrange(0, i as int), '.'),
        decreases n - i,
    {
        let ghost pre = token@.subrange(0, i as int);
        assert(token@.subrange(0, i as int + 1).drop_last() =~= pre);
        proof {
            lemma_count_first(pre, '.');
        }
        if token.get_char(i) == '.' {
            if dots == 0 {
                first = i;
            }
            last = i;
            dots += 1;
        }
        i += 1;
    }
    assert(token@.subrange(0, n as int) =~= token@);
    if dots != 2 {
        return Err(AuthError::Malformed);
    }
    proof {
        lemma_count_first(token@, '.');
        lemma_last_index_bounds(token@, '.');
    }
    let segment = token.substring_char(first + 1, last);
    match b64url_decode(segment) {
        Some(bytes) => Ok(bytes),
        None => Err(AuthError::Malformed),
    }
}

} // verus!
