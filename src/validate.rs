//! Validation of user input for new links.

use vstd::prelude::*;
use crate::model::{valid_slug, CoreError, Slug};
use crate::text::{has_prefix, owned, starts_with};

verus! {

/// Characters with the Unicode White_Space property.
pub open spec fn is_white_space(c: char) -> bool {
    let v = c as u32;
    (0x09 <= v && v <= 0x0D) || v == 0x20 || v == 0x85 || v == 0xA0 || v == 0x1680 || (0x2000 <= v && v
        <= 0x200A) || v == 0x2028 || v == 0x2029 || v == 0x202F || v == 0x205F || v == 0x3000
}

/// `s` without its leading white space.
pub open spec fn trim_start_of(s: Seq<char>) -> Seq<char>
    decreases s.len(),
{
    if s.len() > 0 && is_white_space(s[0]) {
        trim_start_of(s.subrange(1, s.len() as int))
    } else {
        s
    }
}

/// `s` without its trailing white space.
pub open spec fn trim_end_of(s: Seq<char>) -> Seq<char>
    decreases s.len(),
{
    if s.len() > 0 && is_white_space(s.last()) {
        trim_end_of(s.drop_last())
    } else {
        s
    }
}

/// `s` without leading and trailing white space.
pub open spec fn trim_of(s: Seq<char>) -> Seq<char> {
    trim_end_of(trim_start_of(s))
}

/// Relies on `str::trim`: the slice without leading and trailing characters that
/// have the Unicode White_Space property.
#[verifier::external_body]
pub(crate) fn trim(s: &str) -> (r: &str)
    ensures
        r@ == trim_of(s@),
{
    s.trim()
}

/// Why an already trimmed URL is rejected, if it is.
pub open spec fn url_problem(t: Seq<char>) -> Option<Seq<char>> {
    if t.len() == 0 {
        Some("empty"@)
    } else if !(has_prefix(t, "http://"@) || has_prefix(t, "https://"@)) {
        Some("must start with http:// or https://"@)
    } else if vstd::utf8::encode_utf8(t).len() as usize > 2048 {
        Some("too long"@)
    } else {
        None
    }
}

pub open spec fn url_outcome(problem: Option<Seq<char>>, r: Result<(), CoreError>) -> bool {
    match r {
        Ok(()) => problem is None,
        Err(CoreError::InvalidUrl(m)) => problem == Some(m@),
        Err(_) => false,
    }
}

/// Checks a URL that is already trimmed: non-empty, `http://` or `https://`,
/// and at most 2048 bytes.
pub fn check_trimmed_url(t: &str) -> (r: Result<(), CoreError>)
    ensures
        url_outcome(url_problem(t@), r),
{
    if t.unicode_len() == 0 {
        return Err(CoreError::InvalidUrl(owned("empty")));
    }
    if !(starts_with(t, "http://") || starts_with(t, "https://")) {
        return Err(CoreError::InvalidUrl(owned("must start with http:// or https://")));
    }
    if t.len() > 2048 {
        return Err(CoreError::InvalidUrl(owned("too long")));
    }
    Ok(())
}

/// Checks a URL after trimming white space around it.
pub fn validate_original_url(s: &str) -> (r: Result<(), CoreError>)
    ensures
        url_outcome(url_problem(trim_of(s@)), r),
{
    check_trimmed_url(trim(s))
}

/// Validates a custom slug by the rules of `Slug::new`.
pub fn validate_custom_slug(s: &str) -> (r: Result<Slug, CoreError>)
    ensures
        match r {
            Ok(slug) => valid_slug(s@) && slug@ == s@,
            Err(CoreError::InvalidSlug(_)) => !valid_slug(s@),
            Err(_) => false,
        },
{
    Slug::new(s)
}

} // verus!
