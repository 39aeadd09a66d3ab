//! Signing keys: building a key set from a fetched key document, and the
//! time-bounded cache that serves keys by key identifier.

use vstd::prelude::*;
use crate::text::str_eq;
use crate::token::b64url_decoded;

verus! {

#[verifier::external_type_specification]
#[verifier::external_body]
pub struct ExDecodingKey(jsonwebtoken::DecodingKey);

/// Relies on jsonwebtoken's `DecodingKey::from_rsa_components`, which decodes the
/// modulus and exponent as unpadded URL-safe base64 and fails when either is invalid.
#[verifier::external_body]
fn rsa_key(n: &str, e: &str) -> (r: Option<jsonwebtoken::DecodingKey>)
    ensures
        r is Some <==> (b64url_decoded(n@) is Some && b64url_decoded(e@) is Some),
{
    jsonwebtoken::DecodingKey::from_rsa_components(n, e).ok()
}

/// Key lifetime in the cache, in seconds.
pub const KEY_TTL_SECS: u64 = 900;

/// One entry of a published key document.
#[derive(Debug, Clone)]
pub struct JwkEntry {
    pub kid: String,
    pub kty: String,
    pub alg: Option<String>,
    pub n: Option<String>,
    pub e: Option<String>,
}

/// A verifier key with the components it was built from.
pub struct KeyEntry {
    pub kid: String,
    pub n: String,
    pub e: String,
    pub key: jsonwebtoken::DecodingKey,
}

/// What a key set holds for one key identifier: modulus, exponent and key.
pub type KeyView = (Seq<char>, Seq<char>, jsonwebtoken::DecodingKey);

/// Key identifier to key; a later entry replaces an earlier one with the same identifier.
pub struct KeySet {
    entries: Vec<KeyEntry>,
}

/// An entry of a key document that yields a key: RSA, with a valid modulus and exponent.
pub open spec fn usable(j: JwkEntry) -> bool {
    &&& j.kty@ == "RSA"@
    &&& j.n is Some
    &&& j.e is Some
    &&& b64url_decoded(j.n->0@) is Some
    &&& b64url_decoded(j.e->0@) is Some
}

/// Identifiers that the usable entries of `js` map to their components; later entries win.
pub open spec fn document_keys(js: Seq<JwkEntry>) -> Map<Seq<char>, (Seq<char>, Seq<char>)>
    decreases js.len(),
{
    if js.len() == 0 {
        Map::empty()
    } else {
        let m = document_keys(js.drop_last());
        let j = js.last();
        if usable(j) {
            m.insert(j.kid@, (j.n->0@, j.e->0@))
        } else {
            m
        }
    }
}

pub open spec fn entries_map(s: Seq<KeyEntry>) -> Map<Seq<char>, KeyView>
    decreases s.len(),
{
    if s.len() == 0 {
        Map::empty()
    } else {
        entries_map(s.drop_last()).insert(s.last().kid@, (s.last().n@, s.last().e@, s.last().key))
    }
}

/// The components of each key in `m`.
pub open spec fn components(m: Map<Seq<char>, KeyView>) -> Map<Seq<char>, (Seq<char>, Seq<char>)> {
    Map::new(|k: Seq<char>| m.contains_key(k), |k: Seq<char>| (m[k].0, m[k].1))
}

proof fn lemma_entries_map_at(s: Seq<KeyEntry>, j: int)
    requires
        0 <= j < s.len(),
        forall|l: int| j < l < s.len() ==> (#[trigger] s[l]).kid@ != s[j].kid@,
    ensures
        entries_map(s).contains_key(s[j].kid@),
        entries_map(s)[s[j].kid@] == (s[j].n@, s[j].e@, s[j].key),
    decreases s.len(),
{
    if j < s.len() - 1 {
        let t = s.drop_last();
        assert forall|l: int| j < l < t.len() implies (#[trigger] t[l]).kid@ != t[j].kid@ by {
            assert(t[l] == s[l]);
        }
        lemma_entries_map_at(t, j);
        assert(s.last() == s[s.len() - 1]);
    }
}

proof fn lemma_entries_map_absent(s: Seq<KeyEntry>, k: Seq<char>)
    requires
        forall|l: int| 0 <= l < s.len() ==> (#[trigger] s[l]).kid@ != k,
    ensures
        !entries_map(s).contains_key(k),
    decreases s.len(),
{
    if s.len() > 0 {
        let t = s.drop_last();
        assert forall|l: int| 0 <= l < t.len() implies (#[trigger] t[l]).kid@ != k by {
            assert(t[l] == s[l]);
        }
        lemma_entries_map_absent(t, k);
        assert(s.last() == s[s.len() - 1]);
    }
}

impl KeySet {
    pub closed spec fn view(&self) -> Map<Seq<char>, KeyView> {
        entries_map(self.entries@)
    }

    pub fn empty() -> (r: KeySet)
        ensures
            r@ == Map::<Seq<char>, KeyView>::empty(),
    {
        KeySet { entries: Vec::new() }
    }

    /// Builds the keys of a key document, skipping entries that are not RSA,
    /// lack a component, or whose components do not decode.
    pub fn from_document(jwks: &Vec<JwkEntry>) -> (r: KeySet)
        ensures
            components(r@) == document_keys(jwks@),
    {
        let mut entries: Vec<KeyEntry> = Vec::new();
        let mut i: usize = 0;
        while i < jwks.len()
            invariant
                i <= jwks.len(),
                components(entries_map(entries@)) == document_keys(jwks@.subrange(0, i as int)),
            decreases jwks.len() - i,
        {
            let ghost before = entries@;
            assert(jwks@.subrange(0, i as int + 1).drop_last() =~= jwks@.subrange(0, i as int));
            let j = &jwks[i];
            if str_eq(j.kty.as_str(), "RSA") {
                match (&j.n, &j.e) {
                    (Some(n), Some(e)) => match rsa_key(n.as_str(), e.as_str()) {
                        Some(key) => {
                            entries.push(KeyEntry { kid: j.kid.clone(), n: n.clone(), e: e.clone(), key });
                            assert(entries@.drop_last() =~= before);
                            assert(components(entries_map(entries@)) =~= document_keys(
                                jwks@.subrange(0, i as int + 1),
                            ));
                        },
                        None => {},
                    },
                    _ => {},
                }
            }
            i += 1;
        }
        assert(jwks@.subrange(0, jwks.len() as int) =~= jwks@);
        KeySet { entries }
    }

    /// The key for `kid`, if the set has one.
    pub fn get(&self, kid: &str) -> (r: Option<&jsonwebtoken::DecodingKey>)
        ensures
            match r {
                Some(k) => self@.contains_key(kid@) && *k == self@[kid@].2,
                None => !self@.contains_key(kid@),
            },
    {
        let mut i: usize = self.entries.len();
        while i > 0
            invariant
                i <= self.entries.len(),
                forall|l: int| i <= l < self.entries.len() ==> (#[trigger] self.entries@[l]).kid@ != kid@,
            decreases i,
        {
            i -= 1;
            if str_eq(self.entries[i].kid.as_str(), kid) {
                proof {
                    lemma_entries_map_at(self.entries@, i as int);
                }
                return Some(&self.entries[i].key);
            }
        }
        proof {
            lemma_entries_map_absent(self.entries@, kid@);
        }
        None
    }
}

/// The key set was fetched at `fetched_at` and may still be served at `now`.
pub open spec fn is_fresh(fetched_at: u64, now: u64) -> bool {
    fetched_at + KEY_TTL_SECS > now
}

/// How a key lookup proceeds.
#[derive(Debug, Clone, Copy, PartialEq, Eq)]
pub enum KeyPlan {
    /// Install the configured override set and serve from it; never fetch.
    InstallOverride,
    /// Serve the key from the cache without network access.
    UseCached,
    /// Fetch the key document, replace the cache, then serve from it.
    Fetch,
}

/// The cached key set and the time, in seconds since the epoch, it was fetched.
pub struct KeyCache {
    fetched_at: u64,
    keys: KeySet,
}

/// The plan for looking up `kid` in a cache fetched at `fetched_at` holding `keys`.
pub open spec fn plan_for(fetched_at: u64, keys: Map<Seq<char>, KeyView>, kid: Seq<char>, has_override: bool, now: u64) -> KeyPlan {
    if has_override {
        KeyPlan::InstallOverride
    } else if is_fresh(fetched_at, now) && keys.contains_key(kid) {
        KeyPlan::UseCached
    } else {
        KeyPlan::Fetch
    }
}

/// Cache state (fetch time, keys) after a wholesale replacement by `keys` at `now`:
/// nothing of the previous state survives.
pub open spec fn replaced(state: (u64, Map<Seq<char>, KeyView>), keys: Map<Seq<char>, KeyView>, now: u64) -> (u64, Map<Seq<char>, KeyView>) {
    (now, keys)
}

impl KeyCache {
    pub closed spec fn state(&self) -> (u64, Map<Seq<char>, KeyView>) {
        (self.fetched_at, self.keys@)
    }

    pub closed spec fn fetched_at(&self) -> u64 {
        self.fetched_at
    }

    pub closed spec fn keys(&self) -> Map<Seq<char>, KeyView> {
        self.keys@
    }

    /// An empty cache, stale from the start.
    pub fn new() -> (r: KeyCache)
        ensures
            r.fetched_at() == 0,
            r.keys() == Map::<Seq<char>, KeyView>::empty(),
    {
        KeyCache { fetched_at: 0, keys: KeySet::empty() }
    }

    /// Empties the cache and marks it stale.
    pub fn reset(&mut self)
        ensures
            final(self).fetched_at() == 0,
            final(self).keys() == Map::<Seq<char>, KeyView>::empty(),
    {
        self.fetched_at = 0;
        self.keys = KeySet::empty();
    }

    pub fn is_fresh_at(&self, now: u64) -> (r: bool)
        ensures
            r == is_fresh(self.fetched_at(), now),
    {
        if self.fetched_at > now {
            true
        } else {
            now - self.fetched_at < KEY_TTL_SECS
        }
    }

    /// Decides how a lookup of `kid` at `now` proceeds: an override always wins;
    /// else a fresh cache that knows `kid` serves it; else the keys are fetched.
    pub fn plan(&self, kid: &str, has_override: bool, now: u64) -> (r: KeyPlan)
        ensures
            r == plan_for(self.fetched_at(), self.keys(), kid@, has_override, now),
    {
        if has_override {
            return KeyPlan::InstallOverride;
        }
        if self.is_fresh_at(now) {
            if let Some(_) = self.keys.get(kid) {
                return KeyPlan::UseCached;
            }
        }
        KeyPlan::Fetch
    }

    /// Replaces the whole key set, stamped with `now`.
    pub fn replace(&mut self, keys: KeySet, now: u64)
        ensures
            final(self).state() == replaced(old(self).state(), keys@, now),
            final(self).fetched_at() == now,
            final(self).keys() == keys@,
    {
        self.keys = keys;
        self.fetched_at = now;
    }

    /// Commits the outcome of a fetch made for `kid`: a fetched set replaces the
    /// cache, stamped with `now`; a failed fetch leaves it as it was. Returns whether
    /// the key can now be served, which is never the case after a failed fetch.
    pub fn commit_fetch(&mut self, fetched: Option<KeySet>, kid: &str, now: u64) -> (r: bool)
        ensures
            match fetched {
                Some(k) => final(self).state() == replaced(old(self).state(), k@, now),
                None => final(self).state() == old(self).state(),
            },
            r == (fetched is Some && final(self).keys().contains_key(kid@)),
    {
        match fetched {
            Some(keys) => {
                self.replace(keys, now);
                self.key(kid).is_some()
            },
            None => false,
        }
    }

    /// The cached key for `kid`, whatever the cache's age.
    pub fn key(&self, kid: &str) -> (r: Option<&jsonwebtoken::DecodingKey>)
        ensures
            match r {
                Some(k) => self.keys().contains_key(kid@) && *k == self.keys()[kid@].2,
                None => !self.keys().contains_key(kid@),
            },
    {
        self.keys.get(kid)
    }
}

} // verus!
