//! Base62 encoding of unsigned integers, used to derive slugs from ids.

use vstd::prelude::*;
use crate::text::is_alias_char;

verus! {

/// Digits 0-9, then A-Z, then a-z.
pub const ALPHABET: &'static str = "0123456789ABCDEFGHIJKLMNOPQRSTUVWXYZabcdefghijklmnopqrstuvwxyz";

pub open spec fn digit(i: int) -> char {
    ALPHABET@[i]
}

/// Base62 digits of `n`, most significant first; zero is `"0"`.
pub open spec fn base62(n: nat) -> Seq<char>
    decreases n,
{
    if n < 62 {
        seq![digit(n as int)]
    } else {
        base62(n / 62).push(digit((n % 62) as int))
    }
}

pub proof fn lemma_alphabet()
    ensures
        ALPHABET@.len() == 62,
        forall|i: int| 0 <= i < 62 ==> is_alias_char(#[trigger] ALPHABET@[i]),
        ALPHABET@[0] == '0',
{
    reveal_strlit("0123456789ABCDEFGHIJKLMNOPQRSTUVWXYZabcdefghijklmnopqrstuvwxyz");
}

/// Every base62 encoding is a non-empty string of alias characters.
pub proof fn lemma_base62_alias(n: nat)
    ensures
        base62(n).len() > 0,
        forall|i: int| 0 <= i < base62(n).len() ==> is_alias_char(#[trigger] base62(n)[i]),
    decreases n,
{
    lemma_alphabet();
    if n >= 62 {
        lemma_base62_alias(n / 62);
        let s = base62(n / 62);
        assert forall|i: int| 0 <= i < base62(n).len() implies is_alias_char(#[trigger] base62(n)[i]) by {
            if i < s.len() {
                assert(base62(n)[i] == s[i]);
            }
        }
    }
}

/// The base62 alphabet as bytes.
pub fn alphabet() -> (r: &'static [u8])
    ensures
        r@.len() == 62,
        forall|i: int| 0 <= i < 62 ==> r@[i] == ALPHABET@[i] as u8,
{
    proof {
        lemma_alphabet();
        vstd::string::is_ascii_spec_bytes(ALPHABET);
        reveal_strlit("0123456789ABCDEFGHIJKLMNOPQRSTUVWXYZabcdefghijklmnopqrstuvwxyz");
    }
    ALPHABET.as_bytes()
}

/// Base62 text of `n`; zero encodes to `"0"`.
pub fn encode_u64(n: u64) -> (r: String)
    ensures
        r@ == base62(n as nat),
{
    proof {
        lemma_alphabet();
    }
    if n == 0 {
        return ALPHABET.substring_char(0, 1).to_owned();
    }
    let mut cur: u64 = n;
    let mut acc = String::new();
    while cur > 0
        invariant
            ALPHABET@.len() == 62,
            cur > 0 ==> base62(n as nat) == base62(cur as nat) + acc@,
            cur == 0 ==> base62(n as nat) == acc@,
        decreases cur,
    {
        let rem = (cur % 62) as usize;
        let next = cur / 62;
        let piece = ALPHABET.substring_char(rem, rem + 1);
        let ghost old_acc = acc@;
        acc = piece.to_owned().concat(acc.as_str());
        assert(acc@ =~= seq![digit(rem as int)] + old_acc);
        if next > 0 {
            assert(base62(cur as nat) == base62(next as nat).push(digit(rem as int)));
            assert(base62(cur as nat) + old_acc =~= base62(next as nat) + acc@);
        } else {
            assert(base62(cur as nat) =~= seq![digit(rem as int)]);
        }
        cur = next;
    }
    acc
}

} // verus!
