//! Slug generation from numeric ids.

use vstd::prelude::*;
use crate::base62::{base62, encode_u64, lemma_alphabet, lemma_base62_alias};
use crate::model::{valid_slug, Slug, SlugGenerator};
use crate::text::zero_padded;

verus! {

/// Base62 slugs of ids, left-padded with `'0'` to a minimum width.
#[derive(Clone, Copy, Debug)]
pub struct Base62SlugGenerator {
    min_width: usize,
}

impl Base62SlugGenerator {
    pub closed spec fn min_width(&self) -> nat {
        self.min_width as nat
    }

    pub fn new(min_width: usize) -> (r: Base62SlugGenerator)
        ensures
            r.min_width() == min_width,
    {
        Base62SlugGenerator { min_width }
    }

    /// The slug for `id`: its base62 text padded to the minimum width.
    pub fn slug_for(&self, id: u64) -> (r: Slug)
        ensures
            r@ == zero_padded(base62(id as nat), self.min_width()),
    {
        proof {
            lemma_alphabet();
            lemma_base62_alias(id as nat);
        }
        let s = encode_u64(id);
        let len = s.as_str().unicode_len();
        if len < self.min_width {
            let pad = self.min_width - len;
            let mut buf = String::new();
            let mut i: usize = 0;
            while i < pad
                invariant
                    i <= pad,
                    buf@ =~= Seq::new(i as nat, |j: int| '0'),
                decreases pad - i,
            {
                buf = buf.concat("0");
                proof {
                    reveal_strlit("0");
                }
                i += 1;
            }
            let out = buf.concat(s.as_str());
            assert(out@ =~= zero_padded(base62(id as nat), self.min_width()));
            assert(valid_slug(out@)) by {
                assert forall|k: int| 0 <= k < out@.len() implies crate::text::is_alias_char(#[trigger] out@[k]) by {
                    if k >= pad {
                        assert(out@[k] == s@[k - pad]);
                    }
                }
            }
            Slug::from_valid(out)
        } else {
            Slug::from_valid(s)
        }
    }
}

impl SlugGenerator for Base62SlugGenerator {
    /// The base62 text of the id, padded with `'0'` to the minimum width.
    open spec fn slug_of(&self, id: u64) -> Seq<char> {
        zero_padded(base62(id as nat), self.min_width())
    }

    fn next_slug(&self, next_id: u64) -> Slug {
        self.slug_for(next_id)
    }
}

} // verus!
