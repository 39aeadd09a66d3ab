//! Helpers shared by the HTTP front ends: alias validation, query-string
//! parsing, id generation and timestamp parsing.

use vstd::prelude::*;
use crate::text::{
    all_alias_chars, ascii_eq_ic, eq_ignore_ascii_case, first_index_of, is_alias_char, lemma_first_index_bounds, owned,
    str_eq, zero_padded,
};
use crate::validate::{trim, trim_of};

verus! {

/// Whether `s` is a custom alias: 3 to 32 bytes of ASCII letters, digits, `-` and `_`.
pub fn is_valid_alias(s: &str) -> (r: bool)
    ensures
        r == (3 <= vstd::utf8::encode_utf8(s@).len() as usize <= 32
            && forall|i: int| 0 <= i < s@.len() ==> is_alias_char(#[trigger] s@[i])),
{
    let n = s.len();
    if n < 3 || n > 32 {
        return false;
    }
    all_alias_chars(s)
}

/// The segments of `s` between occurrences of `c`, as `str::split` yields them.
pub open spec fn split_on(s: Seq<char>, c: char) -> Seq<Seq<char>>
    decreases s.len(),
{
    if s.len() == 0 {
        seq![Seq::empty()]
    } else {
        let p = split_on(s.drop_last(), c);
        if s.last() == c {
            p.push(Seq::empty())
        } else {
            p.update(p.len() - 1, p.last().push(s.last()))
        }
    }
}

pub proof fn lemma_split_nonempty(s: Seq<char>, c: char)
    ensures
        split_on(s, c).len() >= 1,
    decreases s.len(),
{
    if s.len() > 0 {
        lemma_split_nonempty(s.drop_last(), c);
    }
}

pub open spec fn views(v: Seq<String>) -> Seq<Seq<char>> {
    v.map_values(|x: String| x@)
}

/// Splits `s` at every `c`.
pub fn split_segments(s: &str, c: char) -> (r: Vec<String>)
    ensures
        views(r@) == split_on(s@, c),
{
    let n = s.unicode_len();
    let mut parts: Vec<String> = Vec::new();
    let mut start: usize = 0;
    let mut i: usize = 0;
    assert(s@.subrange(0, 0) =~= Seq::<char>::empty());
    assert(views(parts@) =~= Seq::<Seq<char>>::empty());
    assert(split_on(Seq::<char>::empty(), c) =~= seq![Seq::<char>::empty()]);
    while i < n
        invariant
            n == s@.len(),
            start <= i <= n,
            split_on(s@.subrange(0, i as int), c) == views(parts@).push(s@.subrange(start as int, i as int)),
        decreases n - i,
    {
        let ghost pre = s@.subrange(0, i as int);
        assert(s@.subrange(0, i as int + 1).drop_last() =~= pre);
        proof {
            lemma_split_nonempty(pre, c);
        }
        if s.get_char(i) == c {
            let seg = s.substring_char(start, i).to_owned();
            let ghost before = parts@;
            parts.push(seg);
            assert(views(parts@) =~= views(before).push(s@.subrange(start as int, i as int)));
            assert(s@.subrange(i as int + 1, i as int + 1) =~= Seq::<char>::empty());
            start = i + 1;
        } else {
            assert(s@.subrange(start as int, i as int + 1) =~= s@.subrange(start as int, i as int).push(s@[i as int]));
            assert(split_on(s@.subrange(0, i as int + 1), c) =~= views(parts@).push(s@.subrange(start as int, i as int + 1)));
        }
        i += 1;
    }
    let last = s.substring_char(start, n).to_owned();
    let ghost before = parts@;
    parts.push(last);
    assert(s@.subrange(0, n as int) =~= s@);
    assert(views(parts@) =~= views(before).push(s@.subrange(start as int, n as int)));
    parts
}

/// The key of a `key=value` pair: the text before its first `=`, or all of it.
pub open spec fn pair_key(seg: Seq<char>) -> Seq<char> {
    let k = first_index_of(seg, '=');
    if k >= 0 {
        seg.subrange(0, k)
    } else {
        seg
    }
}

/// The value of a `key=value` pair: the text after its first `=`, if it has one.
pub open spec fn pair_value(seg: Seq<char>) -> Option<Seq<char>> {
    let k = first_index_of(seg, '=');
    if k >= 0 {
        Some(seg.subrange(k + 1, seg.len() as int))
    } else {
        None
    }
}

/// Position of the first `c` in `s`, if any.
pub fn find_first(s: &str, c: char) -> (r: Option<usize>)
    ensures
        match r {
            Some(k) => k as int == first_index_of(s@, c),
            None => first_index_of(s@, c) == -1,
        },
{
    let n = s.unicode_len();
    let mut i: usize = 0;
    let mut found: Option<usize> = None;
    while i < n
        invariant
            n == s@.len(),
            i <= n,
            match found {
                Some(k) => k as int == first_index_of(s@.subrange(0, i as int), c),
                None => first_index_of(s@.subrange(0, i as int), c) == -1,
            },
        decreases n - i,
    {
        assert(s@.subrange(0, i as int + 1).drop_last() =~= s@.subrange(0, i as int));
        if found.is_none() && s.get_char(i) == c {
            found = Some(i);
        }
        i += 1;
    }
    assert(s@.subrange(0, n as int) =~= s@);
    found
}

/// Splits a pair into its key and, when it has an `=`, its value.
pub fn split_pair(seg: &str) -> (r: (String, Option<String>))
    ensures
        r.0@ == pair_key(seg@),
        match r.1 {
            Some(v) => pair_value(seg@) == Some(v@),
            None => pair_value(seg@) is None,
        },
{
    proof {
        lemma_first_index_bounds(seg@, '=');
    }
    match find_first(seg, '=') {
        Some(k) => {
            let n = seg.unicode_len();
            (seg.substring_char(0, k).to_owned(), Some(seg.substring_char(k + 1, n).to_owned()))
        },
        None => (owned(seg), None),
    }
}

pub open spec fn is_digit(c: char) -> bool {
    '0' <= c && c <= '9'
}

/// Decimal value of a string of digits.
pub open spec fn digits_value(s: Seq<char>) -> nat
    decreases s.len(),
{
    if s.len() == 0 {
        0
    } else {
        digits_value(s.drop_last()) * 10 + (s.last() as nat - 48) as nat
    }
}

/// `s` without one leading `+`.
pub open spec fn unsigned_digits(s: Seq<char>) -> Seq<char> {
    if s.len() > 0 && s[0] == '+' {
        s.subrange(1, s.len() as int)
    } else {
        s
    }
}

/// `d` is one or more decimal digits.
pub open spec fn all_digits(d: Seq<char>) -> bool {
    d.len() > 0 && forall|i: int| 0 <= i < d.len() ==> is_digit(#[trigger] d[i])
}

/// The number that `usize::from_str` reads from `s`: an optional `+`, then one or
/// more decimal digits whose value fits in `usize`.
pub open spec fn parsed_usize(s: Seq<char>) -> Option<nat> {
    let d = unsigned_digits(s);
    if all_digits(d) && digits_value(d) <= usize::MAX {
        Some(digits_value(d))
    } else {
        None
    }
}

/// The limit that a pair sets: key `limit` and a number from 1 to 500.
pub open spec fn limit_in(seg: Seq<char>) -> Option<nat> {
    if pair_key(seg) == "limit"@ {
        match pair_value(seg) {
            Some(v) => match parsed_usize(v) {
                Some(n) => if 1 <= n <= 500 { Some(n) } else { None },
                None => None,
            },
            None => None,
        }
    } else {
        None
    }
}

/// The limit set by the first pair of `ps` that sets one.
pub open spec fn first_limit(ps: Seq<Seq<char>>) -> Option<nat>
    decreases ps.len(),
{
    if ps.len() == 0 {
        None
    } else {
        match first_limit(ps.drop_last()) {
            Some(n) => Some(n),
            None => limit_in(ps.last()),
        }
    }
}

/// The value of `digits` capped at 1001, or `None` if it is empty or holds a non-digit.
fn capped_number(digits: &str) -> (r: Option<u64>)
    ensures
        match r {
            Some(v) => all_digits(digits@) && v == (if digits_value(digits@) > 1001 {
                1001
            } else {
                digits_value(digits@)
            }),
            None => !all_digits(digits@),
        },
{
    let n = digits.unicode_len();
    if n == 0 {
        return None;
    }
    let mut acc: u64 = 0;
    let mut i: usize = 0;
    while i < n
        invariant
            n == digits@.len(),
            i <= n,
            forall|j: int| 0 <= j < i ==> is_digit(#[trigger] digits@[j]),
            acc == (if digits_value(digits@.subrange(0, i as int)) > 1001 { 1001 } else { digits_value(digits@.subrange(0, i as int)) }),
        decreases n - i,
    {
        let ch = digits.get_char(i);
        if !('0' <= ch && ch <= '9') {
            return None;
        }
        let d = (ch as u32 - 48) as u64;
        let ghost pre = digits@.subrange(0, i as int);
        assert(digits@.subrange(0, i as int + 1).drop_last() =~= pre);
        assert(digits_value(digits@.subrange(0, i as int + 1)) == digits_value(pre) * 10 + d);
        if acc >= 1001 {
            assert(digits_value(pre) * 10 + d > 1001) by (nonlinear_arith)
                requires
                    digits_value(pre) >= 1001,
            ;
            acc = 1001;
        } else {
            let v = acc * 10 + d;
            acc = if v > 1001 { 1001 } else { v };
        }
        i += 1;
    }
    assert(digits@.subrange(0, n as int) =~= digits@);
    Some(acc)
}

/// The limit a pair sets, if it sets one.
fn pair_limit(seg: &str) -> (r: Option<usize>)
    ensures
        match r {
            Some(n) => limit_in(seg@) == Some(n as nat),
            None => limit_in(seg@) is None,
        },
{
    let (key, value) = split_pair(seg);
    if !str_eq(key.as_str(), "limit") {
        return None;
    }
    let v = match value {
        Some(v) => v,
        None => return None,
    };
    let vs = v.as_str();
    let n = vs.unicode_len();
    let digits = if n > 0 && vs.get_char(0) == '+' {
        vs.substring_char(1, n)
    } else {
        vs
    };
    let ghost d = unsigned_digits(v@);
    assert(digits@ == d);
    match capped_number(digits) {
        Some(x) => if 1 <= x && x <= 500 {
            assert(digits_value(d) == x);
            assert(parsed_usize(v@) == Some(x as nat));
            Some(x as usize)
        } else {
            None
        },
        None => {
            None
        },
    }
}

/// The `limit` of a query string: the first `limit=n` pair with `n` from 1 to 500.
pub fn parse_limit_query(query: Option<&str>) -> (r: Option<usize>)
    ensures
        match query {
            None => r is None,
            Some(q) => match r {
                Some(n) => first_limit(split_on(q@, '&')) == Some(n as nat),
                None => first_limit(split_on(q@, '&')) is None,
            },
        },
{
    let q = match query {
        Some(q) => q,
        None => return None,
    };
    let pairs = split_segments(q, '&');
    let mut i: usize = 0;
    while i < pairs.len()
        invariant
            i <= pairs.len(),
            query == Some(q),
            views(pairs@) == split_on(q@, '&'),
            first_limit(views(pairs@).subrange(0, i as int)) is None,
        decreases pairs.len() - i,
    {
        assert(views(pairs@).subrange(0, i as int + 1).drop_last() =~= views(pairs@).subrange(0, i as int));
        assert(views(pairs@)[i as int] == pairs@[i as int]@);
        match pair_limit(pairs[i].as_str()) {
            Some(n) => {
                assert(views(pairs@).subrange(0, i as int + 1).last() == pairs@[i as int]@);
                proof {
                    lemma_first_prefix(views(pairs@), i as int + 1);
                }
                return Some(n);
            },
            None => {},
        }
        i += 1;
    }
    assert(views(pairs@).subrange(0, pairs.len() as int) =~= views(pairs@));
    None
}

/// Once a prefix of `ps` sets a limit, `ps` sets the same one.
proof fn lemma_first_prefix(ps: Seq<Seq<char>>, k: int)
    requires
        0 <= k <= ps.len(),
        first_limit(ps.subrange(0, k)) is Some,
    ensures
        first_limit(ps) == first_limit(ps.subrange(0, k)),
    decreases ps.len() - k,
{
    if k < ps.len() {
        assert(ps.subrange(0, k + 1).drop_last() =~= ps.subrange(0, k));
        lemma_first_prefix(ps, k + 1);
    } else {
        assert(ps.subrange(0, k) =~= ps);
    }
}

/// `s` with each `%40` read as `@` and each `%20` as a space, left to right.
pub open spec fn pct_decoded(s: Seq<char>) -> Seq<char>
    decreases s.len(),
{
    if s.len() == 0 {
        s
    } else if s.len() >= 3 && s[0] == '%' && s[1] == '4' && s[2] == '0' {
        seq!['@'] + pct_decoded(s.subrange(3, s.len() as int))
    } else if s.len() >= 3 && s[0] == '%' && s[1] == '2' && s[2] == '0' {
        seq![' '] + pct_decoded(s.subrange(3, s.len() as int))
    } else {
        seq![s[0]] + pct_decoded(s.subrange(1, s.len() as int))
    }
}

/// Reads `%40` as `@` and `%20` as a space.
pub fn decode_common_escapes(s: &str) -> (r: String)
    ensures
        r@ == pct_decoded(s@),
{
    let n = s.unicode_len();
    let mut out = String::new();
    let mut i: usize = 0;
    proof {
        reveal_strlit("@");
        reveal_strlit(" ");
    }
    assert(s@.subrange(0, n as int) =~= s@);
    while i < n
        invariant
            n == s@.len(),
            i <= n,
            pct_decoded(s@) == out@ + pct_decoded(s@.subrange(i as int, n as int)),
            "@"@ == seq!['@'],
            " "@ == seq![' '],
        decreases n - i,
    {
        let ghost rest = s@.subrange(i as int, n as int);
        let ghost prev = out@;
        if n - i >= 3 && s.get_char(i) == '%' && s.get_char(i + 1) == '4' && s.get_char(i + 2) == '0' {
            assert(rest.subrange(3, rest.len() as int) =~= s@.subrange(i as int + 3, n as int));
            out = out.concat("@");
            assert(out@ + pct_decoded(s@.subrange(i as int + 3, n as int)) =~= prev + pct_decoded(rest));
            i = i + 3;
        } else if n - i >= 3 && s.get_char(i) == '%' && s.get_char(i + 1) == '2' && s.get_char(i + 2) == '0' {
            assert(rest.subrange(3, rest.len() as int) =~= s@.subrange(i as int + 3, n as int));
            out = out.concat(" ");
            assert(out@ + pct_decoded(s@.subrange(i as int + 3, n as int)) =~= prev + pct_decoded(rest));
            i = i + 3;
        } else {
            assert(rest.subrange(1, rest.len() as int) =~= s@.subrange(i as int + 1, n as int));
            let piece = s.substring_char(i, i + 1);
            out = out.concat(piece);
            assert(out@ + pct_decoded(s@.subrange(i as int + 1, n as int)) =~= prev + pct_decoded(rest));
            i = i + 1;
        }
    }
    assert(out@ + pct_decoded(s@.subrange(n as int, n as int)) =~= out@);
    out
}

/// The decoded value of the first pair of `ps` whose key is `name` and that has a value.
pub open spec fn first_param(ps: Seq<Seq<char>>, name: Seq<char>) -> Option<Seq<char>>
    decreases ps.len(),
{
    if ps.len() == 0 {
        None
    } else {
        match first_param(ps.drop_last(), name) {
            Some(v) => Some(v),
            None => if pair_key(ps.last()) == name && pair_value(ps.last()) is Some {
                Some(pct_decoded(pair_value(ps.last())->0))
            } else {
                None
            },
        }
    }
}

proof fn lemma_first_param_prefix(ps: Seq<Seq<char>>, name: Seq<char>, k: int)
    requires
        0 <= k <= ps.len(),
        first_param(ps.subrange(0, k), name) is Some,
    ensures
        first_param(ps, name) == first_param(ps.subrange(0, k), name),
    decreases ps.len() - k,
{
    if k < ps.len() {
        assert(ps.subrange(0, k + 1).drop_last() =~= ps.subrange(0, k));
        lemma_first_param_prefix(ps, name, k + 1);
    } else {
        assert(ps.subrange(0, k) =~= ps);
    }
}

/// The value of the first `name=value` pair of a query string, with `%40` and
/// `%20` decoded.
pub fn parse_query_param(query: Option<&str>, name: &str) -> (r: Option<String>)
    ensures
        match query {
            None => r is None,
            Some(q) => match r {
                Some(v) => first_param(split_on(q@, '&'), name@) == Some(v@),
                None => first_param(split_on(q@, '&'), name@) is None,
            },
        },
{
    let q = match query {
        Some(q) => q,
        None => return None,
    };
    let pairs = split_segments(q, '&');
    let mut i: usize = 0;
    while i < pairs.len()
        invariant
            i <= pairs.len(),
            query == Some(q),
            views(pairs@) == split_on(q@, '&'),
            first_param(views(pairs@).subrange(0, i as int), name@) is None,
        decreases pairs.len() - i,
    {
        assert(views(pairs@).subrange(0, i as int + 1).drop_last() =~= views(pairs@).subrange(0, i as int));
        assert(views(pairs@)[i as int] == pairs@[i as int]@);
        assert(views(pairs@).subrange(0, i as int + 1).last() == pairs@[i as int]@);
        let (key, value) = split_pair(pairs[i].as_str());
        if str_eq(key.as_str(), name) {
            if let Some(v) = value {
                let decoded = decode_common_escapes(v.as_str());
                proof {
                    lemma_first_param_prefix(views(pairs@), name@, i as int + 1);
                }
                return Some(decoded);
            }
        }
        i += 1;
    }
    assert(views(pairs@).subrange(0, pairs.len() as int) =~= views(pairs@));
    None
}

/// Lower-case hexadecimal digits.
pub const HEX_DIGITS: &'static str = "0123456789abcdef";

/// Lower-case hexadecimal text of `n` without leading zeros; zero is `"0"`.
pub open spec fn hex(n: nat) -> Seq<char>
    decreases n,
{
    if n < 16 {
        seq![HEX_DIGITS@[n as int]]
    } else {
        hex(n / 16).push(HEX_DIGITS@[(n % 16) as int])
    }
}

/// Lower-case hexadecimal text of `n`.
pub fn hex_u64(n: u64) -> (r: String)
    ensures
        r@ == hex(n as nat),
{
    proof {
        reveal_strlit("0123456789abcdef");
    }
    if n == 0 {
        return HEX_DIGITS.substring_char(0, 1).to_owned();
    }
    let mut cur: u64 = n;
    let mut acc = String::new();
    while cur > 0
        invariant
            HEX_DIGITS@.len() == 16,
            cur > 0 ==> hex(n as nat) == hex(cur as nat) + acc@,
            cur == 0 ==> hex(n as nat) == acc@,
        decreases cur,
    {
        let rem = (cur % 16) as usize;
        let next = cur / 16;
        let piece = HEX_DIGITS.substring_char(rem, rem + 1);
        let ghost old_acc = acc@;
        acc = piece.to_owned().concat(acc.as_str());
        assert(acc@ =~= seq![HEX_DIGITS@[rem as int]] + old_acc);
        if next > 0 {
            assert(hex(cur as nat) == hex(next as nat).push(HEX_DIGITS@[rem as int]));
            assert(hex(cur as nat) + old_acc =~= hex(next as nat) + acc@);
        } else {
            assert(hex(cur as nat) =~= seq![HEX_DIGITS@[rem as int]]);
        }
        cur = next;
    }
    acc
}

/// The 32-bit mixing value of an id: the low 32 bits of the time xor `0xDEADBEEF`,
/// times 1103515245, plus 12345, modulo 2^32.
pub open spec fn id_mix(ts: u64) -> nat {
    ((((ts ^ 0xDEAD_BEEFu64) as nat % 0x1_0000_0000) * 1103515245 + 12345) % 0x1_0000_0000) as nat
}

/// An id made of the time in milliseconds, in hex, then `_`, then its mixing
/// value as eight hex digits.
pub fn generate_id(timestamp_ms: u64) -> (r: String)
    ensures
        r@ == hex(timestamp_ms as nat) + "_"@ + zero_padded(hex(id_mix(timestamp_ms)), 8),
{
    let x: u64 = (timestamp_ms ^ 0xDEAD_BEEFu64) % 0x1_0000_0000;
    assert(x * 1103515245 <= 0xFFFF_FFFFu64 * 1103515245) by (nonlinear_arith)
        requires
            x < 0x1_0000_0000,
    ;
    let mixed: u64 = (x * 1103515245 + 12345) % 0x1_0000_0000;
    assert(mixed as nat == id_mix(timestamp_ms));
    let h = hex_u64(mixed);
    let len = h.as_str().unicode_len();
    let mut pad = String::new();
    let mut i: usize = len;
    proof {
        reveal_strlit("0");
    }
    while i < 8
        invariant
            len <= i,
            len < 8 ==> i <= 8,
            len >= 8 ==> i == len,
            "0"@ == seq!['0'],
            pad@ =~= Seq::new((i - len) as nat, |j: int| '0'),
        decreases 8 - i,
    {
        pad = pad.concat("0");
        i += 1;
    }
    let tail = pad.concat(h.as_str());
    assert(h@.len() == len);
    assert(h@ == hex(id_mix(timestamp_ms)));
    if len < 8 {
        assert(tail@ =~= Seq::new((8 - len) as nat, |j: int| '0') + h@);
    } else {
        assert(tail@ =~= h@);
    }
    assert(tail@ =~= zero_padded(hex(id_mix(timestamp_ms)), 8));
    hex_u64(timestamp_ms).concat("_").concat(tail.as_str())
}

#[verifier::external_type_specification]
#[verifier::external_body]
pub struct ExParseError(chrono::ParseError);

/// Seconds since the Unix epoch of the instant an RFC 3339 timestamp names, if valid.
pub uninterp spec fn rfc3339_seconds(s: Seq<char>) -> Option<int>;

/// Relies on chrono's `DateTime::parse_from_rfc3339` and `DateTime::timestamp`:
/// the instant the text names, in whole seconds since the epoch, or a parse error.
#[verifier::external_body]
fn rfc3339_to_seconds(s: &str) -> (r: Result<i64, chrono::ParseError>)
    ensures
        match r {
            Ok(t) => rfc3339_seconds(s@) == Some(t as int),
            Err(_) => rfc3339_seconds(s@) is None,
        },
{
    chrono::DateTime::parse_from_rfc3339(s).map(|dt| dt.timestamp())
}

/// Parses an RFC 3339 timestamp into whole seconds since the Unix epoch.
pub fn parse_rfc3339(s: &str) -> (r: Result<i64, chrono::ParseError>)
    ensures
        match r {
            Ok(t) => rfc3339_seconds(s@) == Some(t as int),
            Err(_) => rfc3339_seconds(s@) is None,
        },
{
    rfc3339_to_seconds(s)
}

/// Default message of an error code; an unknown code is its own message.
pub open spec fn error_message(code: Seq<char>) -> Seq<char> {
    if code == "not_found"@ {
        "Resource not found"@
    } else if code == "bad_request"@ {
        "Bad request"@
    } else if code == "invalid_slug"@ {
        "Invalid slug format"@
    } else if code == "unauthorized"@ {
        "Authentication required"@
    } else if code == "forbidden"@ {
        "Access denied"@
    } else if code == "conflict"@ {
        "Resource already exists"@
    } else if code == "error"@ || code == "internal"@ {
        "Internal server error"@
    } else {
        code
    }
}

/// The message that goes with an error code in error responses.
pub fn default_error_message<'a>(code: &'a str) -> (r: &'a str)
    ensures
        r@ == error_message(code@),
{
    if str_eq(code, "not_found") {
        "Resource not found"
    } else if str_eq(code, "bad_request") {
        "Bad request"
    } else if str_eq(code, "invalid_slug") {
        "Invalid slug format"
    } else if str_eq(code, "unauthorized") {
        "Authentication required"
    } else if str_eq(code, "forbidden") {
        "Access denied"
    } else if str_eq(code, "conflict") {
        "Resource already exists"
    } else if str_eq(code, "error") || str_eq(code, "internal") {
        "Internal server error"
    } else {
        code
    }
}

/// `s` without the `/` characters at its end.
pub open spec fn without_trailing_slashes(s: Seq<char>) -> Seq<char>
    decreases s.len(),
{
    if s.len() > 0 && s.last() == '/' {
        without_trailing_slashes(s.drop_last())
    } else {
        s
    }
}

/// The short URL of `slug`: under the configured link domain when one is set and
/// non-empty, else under `https://host`, else as a path.
pub open spec fn short_url(domain: Option<Seq<char>>, host: Seq<char>, slug: Seq<char>) -> Seq<char> {
    if domain is Some && domain->0.len() > 0 {
        without_trailing_slashes(domain->0) + "/"@ + slug
    } else if host.len() == 0 {
        "/"@ + slug
    } else {
        "https://"@ + host + "/"@ + slug
    }
}

/// Builds the short URL of `slug` from the configured link domain, if any, and the request host.
pub fn build_short_url_from_host(shortlink_domain: Option<&str>, host: &str, slug: &str) -> (r: String)
    ensures
        r@ == short_url(match shortlink_domain {
            Some(d) => Some(d@),
            None => None,
        }, host@, slug@),
{
    if let Some(dom) = shortlink_domain {
        let n = dom.unicode_len();
        if n > 0 {
            let mut end: usize = n;
            assert(dom@.subrange(0, n as int) =~= dom@);
            while end > 0 && dom.get_char(end - 1) == '/'
                invariant
                    end <= n,
                    n == dom@.len(),
                    without_trailing_slashes(dom@) == without_trailing_slashes(dom@.subrange(0, end as int)),
                decreases end,
            {
                assert(dom@.subrange(0, end as int).drop_last() =~= dom@.subrange(0, end as int - 1));
                end -= 1;
            }
            return owned(dom.substring_char(0, end)).concat("/").concat(slug);
        }
    }
    if host.unicode_len() == 0 {
        owned("/").concat(slug)
    } else {
        owned("https://").concat(host).concat("/").concat(slug)
    }
}

/// `email` is one of the comma-separated entries of `admins`, trimmed, up to ASCII case.
pub open spec fn listed_admin(admins: Seq<char>, email: Seq<char>) -> bool {
    exists|i: int| 0 <= i < split_on(admins, ',').len() && ascii_eq_ic(trim_of(#[trigger] split_on(admins, ',')[i]), email)
}

/// Whether `email` is in the comma-separated administrator list `admins`.
pub fn is_admin(admins: &str, email: &str) -> (r: bool)
    ensures
        r == listed_admin(admins@, email@),
{
    let entries = split_segments(admins, ',');
    let mut i: usize = 0;
    while i < entries.len()
        invariant
            i <= entries@.len(),
            views(entries@) == split_on(admins@, ','),
            forall|j: int| 0 <= j < i ==> !ascii_eq_ic(trim_of(#[trigger] split_on(admins@, ',')[j]), email@),
        decreases entries@.len() - i,
    {
        assert(views(entries@)[i as int] == entries@[i as int]@);
        if eq_ignore_ascii_case(trim(entries[i].as_str()), email) {
            return true;
        }
        i += 1;
    }
    false
}

/// How one character is written in HTML text.
pub open spec fn html_char(c: char) -> Seq<char> {
    if c == '&' {
        "&amp;"@
    } else if c == '<' {
        "&lt;"@
    } else if c == '>' {
        "&gt;"@
    } else if c == '"' {
        "&quot;"@
    } else if c == '\'' {
        "&#x27;"@
    } else {
        seq![c]
    }
}

/// `s` with each character written as in HTML text.
pub open spec fn html_escaped(s: Seq<char>) -> Seq<char>
    decreases s.len(),
{
    if s.len() == 0 {
        Seq::empty()
    } else {
        html_escaped(s.drop_last()) + html_char(s.last())
    }
}

/// Escapes `&`, `<`, `>`, `"` and `'` for HTML text.
pub fn html_escape(s: &str) -> (r: String)
    ensures
        r@ == html_escaped(s@),
{
    let n = s.unicode_len();
    let mut out = String::new();
    let mut i: usize = 0;
    while i < n
        invariant
            n == s@.len(),
            i <= n,
            out@ == html_escaped(s@.subrange(0, i as int)),
        decreases n - i,
    {
        assert(s@.subrange(0, i as int + 1).drop_last() =~= s@.subrange(0, i as int));
        let c = s.get_char(i);
        let piece: &str = if c == '&' {
            "&amp;"
        } else if c == '<' {
            "&lt;"
        } else if c == '>' {
            "&gt;"
        } else if c == '"' {
            "&quot;"
        } else if c == '\'' {
            "&#x27;"
        } else {
            s.substring_char(i, i + 1)
        };
        assert(piece@ == html_char(c));
        out = out.concat(piece);
        i += 1;
    }
    assert(s@.subrange(0, n as int) =~= s@);
    out
}

} // verus!
