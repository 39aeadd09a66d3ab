//! Click analytics: the storage interface and an in-memory store.

use vstd::prelude::*;
use crate::model::{ClickEvent, CoreError, Slug};
use crate::sort::{first_n, keep_first, newest_first, sort_newest_first, Stamped};
use crate::text::{owned, str_eq};

verus! {

impl Stamped for ClickEvent {
    open spec fn stamp(&self) -> u64 {
        self.clicked_at
    }

    fn stamp_of(&self) -> (r: u64) {
        self.clicked_at
    }
}

pub const SECS_PER_DAY: u64 = 86400;

/// The clicks of `s` on link `slug`, in order.
pub open spec fn clicks_on(s: Seq<ClickEvent>, slug: Seq<char>) -> Seq<ClickEvent>
    decreases s.len(),
{
    if s.len() == 0 {
        Seq::empty()
    } else if s.last().slug@ == slug {
        clicks_on(s.drop_last(), slug).push(s.last())
    } else {
        clicks_on(s.drop_last(), slug)
    }
}

/// Number of clicks of `s` on `slug` at or after `since`.
pub open spec fn count_since(s: Seq<ClickEvent>, slug: Seq<char>, since: u64) -> nat
    decreases s.len(),
{
    if s.len() == 0 {
        0
    } else if s.last().slug@ == slug && s.last().clicked_at >= since {
        count_since(s.drop_last(), slug, since) + 1
    } else {
        count_since(s.drop_last(), slug, since)
    }
}

/// Number of clicks of `s` on `slug` at or after `since` that fall on day `day`.
pub open spec fn count_on_day(s: Seq<ClickEvent>, slug: Seq<char>, since: u64, day: u64) -> nat
    decreases s.len(),
{
    if s.len() == 0 {
        0
    } else if s.last().slug@ == slug && s.last().clicked_at >= since && s.last().clicked_at / SECS_PER_DAY == day {
        count_on_day(s.drop_last(), slug, since, day) + 1
    } else {
        count_on_day(s.drop_last(), slug, since, day)
    }
}

proof fn lemma_count_on_day_witness(s: Seq<ClickEvent>, slug: Seq<char>, since: u64, day: u64)
    requires
        count_on_day(s, slug, since, day) > 0,
    ensures
        exists|j: int| 0 <= j < s.len() && (#[trigger] s[j]).slug@ == slug && s[j].clicked_at >= since
            && s[j].clicked_at / SECS_PER_DAY == day,
    decreases s.len(),
{
    let t = s.drop_last();
    if count_on_day(t, slug, since, day) > 0 {
        lemma_count_on_day_witness(t, slug, since, day);
        let j = choose|j: int| 0 <= j < t.len() && (#[trigger] t[j]).slug@ == slug && t[j].clicked_at >= since
            && t[j].clicked_at / SECS_PER_DAY == day;
        assert(s[j] == t[j]);
    } else {
        assert(s[s.len() - 1] == s.last());
    }
}

/// Decimal digits of `n`; zero is `"0"`.
pub open spec fn decimal(n: nat) -> Seq<char>
    decreases n,
{
    if n < 10 {
        seq![DIGITS@[n as int]]
    } else {
        decimal(n / 10).push(DIGITS@[(n % 10) as int])
    }
}

pub const DIGITS: &'static str = "0123456789";

/// Decimal text of `n`.
pub fn decimal_u64(n: u64) -> (r: String)
    ensures
        r@ == decimal(n as nat),
{
    proof {
        reveal_strlit("0123456789");
    }
    if n == 0 {
        return DIGITS.substring_char(0, 1).to_owned();
    }
    let mut cur: u64 = n;
    let mut acc = String::new();
    while cur > 0
        invariant
            DIGITS@.len() == 10,
            cur > 0 ==> decimal(n as nat) == decimal(cur as nat) + acc@,
            cur == 0 ==> decimal(n as nat) == acc@,
        decreases cur,
    {
        let rem = (cur % 10) as usize;
        let next = cur / 10;
        let piece = DIGITS.substring_char(rem, rem + 1);
        let ghost old_acc = acc@;
        acc = piece.to_owned().concat(acc.as_str());
        assert(acc@ =~= seq![DIGITS@[rem as int]] + old_acc);
        if next > 0 {
            assert(decimal(cur as nat) == decimal(next as nat).push(DIGITS@[rem as int]));
            assert(decimal(cur as nat) + old_acc =~= decimal(next as nat) + acc@);
        } else {
            assert(decimal(cur as nat) =~= seq![DIGITS@[rem as int]]);
        }
        cur = next;
    }
    acc
}

/// Key of the day `day` in per-day counts.
pub open spec fn day_key(day: u64) -> Seq<char> {
    "day-"@ + decimal(day as nat)
}

/// `a` sorts strictly before `b`, comparing characters from the left.
pub open spec fn lex_lt(a: Seq<char>, b: Seq<char>) -> bool
    decreases a.len(),
{
    if a.len() == 0 {
        b.len() > 0
    } else if b.len() == 0 {
        false
    } else if a[0] != b[0] {
        a[0] < b[0]
    } else {
        lex_lt(a.drop_first(), b.drop_first())
    }
}

proof fn lemma_lex_asymmetric(a: Seq<char>, b: Seq<char>)
    ensures
        lex_lt(a, b) ==> !lex_lt(b, a),
    decreases a.len(),
{
    if a.len() > 0 && b.len() > 0 && a[0] == b[0] {
        lemma_lex_asymmetric(a.drop_first(), b.drop_first());
    }
}

/// Whether `a` sorts strictly before `b`.
pub fn text_lt(a: &str, b: &str) -> (r: bool)
    ensures
        r == lex_lt(a@, b@),
{
    let n = a.unicode_len();
    let m = b.unicode_len();
    let mut i: usize = 0;
    assert(a@.subrange(0, n as int) =~= a@);
    assert(b@.subrange(0, m as int) =~= b@);
    while i < n && i < m
        invariant
            n == a@.len(),
            m == b@.len(),
            i <= n,
            i <= m,
            forall|j: int| 0 <= j < i ==> a@[j] == b@[j],
            lex_lt(a@, b@) == lex_lt(a@.subrange(i as int, n as int), b@.subrange(i as int, m as int)),
        decreases n - i,
    {
        let x = a.get_char(i);
        let y = b.get_char(i);
        let ghost sa = a@.subrange(i as int, n as int);
        let ghost sb = b@.subrange(i as int, m as int);
        assert(sa[0] == x && sb[0] == y);
        if x != y {
            return x < y;
        }
        assert(sa.drop_first() =~= a@.subrange(i as int + 1, n as int));
        assert(sb.drop_first() =~= b@.subrange(i as int + 1, m as int));
        i += 1;
    }
    i == n && i < m
}

/// Adjacent keys never go down.
pub open spec fn keys_ascending(v: Seq<(String, u64)>) -> bool {
    forall|a: int, b: int| 0 <= a < v.len() && b == a + 1 && b < v.len() ==> !lex_lt((#[trigger] v[b]).0@, (#[trigger] v[a]).0@)
}

/// Inserts `x` before the first entry whose key sorts after its key.
fn insert_by_key(v: &mut Vec<(String, u64)>, x: (String, u64))
    requires
        keys_ascending(old(v)@),
    ensures
        keys_ascending(final(v)@),
        exists|i: int| 0 <= i <= old(v)@.len() && final(v)@ == old(v)@.insert(i, x),
{
    let mut i: usize = 0;
    while i < v.len()
        invariant
            i <= v@.len(),
            v@ == old(v)@,
            forall|j: int| 0 <= j < i ==> !lex_lt(x.0@, (#[trigger] v@[j]).0@),
        ensures
            i <= v@.len(),
            v@ == old(v)@,
            forall|j: int| 0 <= j < i ==> !lex_lt(x.0@, (#[trigger] v@[j]).0@),
            i == v@.len() || lex_lt(x.0@, v@[i as int].0@),
        decreases v@.len() - i,
    {
        if text_lt(x.0.as_str(), v[i].0.as_str()) {
            break;
        }
        i += 1;
    }
    let ghost before = v@;
    let ghost key = x.0@;
    proof {
        if i < before.len() {
            lemma_lex_asymmetric(key, before[i as int].0@);
        }
    }
    v.insert(i, x);
    assert forall|a: int, b: int| 0 <= a < v@.len() && b == a + 1 && b < v@.len() implies !lex_lt((#[trigger] v@[b]).0@, (#[trigger] v@[a]).0@) by {
        if b < i {
            assert(v@[a] == before[a] && v@[b] == before[b]);
        } else if b == i {
            assert(v@[a] == before[a]);
            assert(v@[b].0@ == key);
        } else if a == i {
            assert(v@[b] == before[a]);
            assert(v@[a].0@ == key);
        } else {
            assert(v@[a] == before[a - 1] && v@[b] == before[b - 1]);
        }
    }
}

/// `e` is the key of some day `d` and the positive count of clicks on `slug` at or
/// after `cutoff` that fall on `d`.
pub open spec fn day_entry(e: (String, u64), clicks: Seq<ClickEvent>, slug: Seq<char>, cutoff: u64) -> bool {
    exists|d: u64| #![trigger day_key(d)] e.0@ == day_key(d) && e.1 == count_on_day(clicks, slug, cutoff, d) && e.1 > 0
}

/// `v` holds, in ascending key order, one `(day_key(d), n)` entry for each day
/// `d` with `n > 0` clicks on `slug` at or after `cutoff`, and its count.
pub open spec fn day_counts(v: Seq<(String, u64)>, clicks: Seq<ClickEvent>, slug: Seq<char>, cutoff: u64) -> bool {
    &&& keys_ascending(v)
    &&& forall|k: int| 0 <= k < v.len() ==> day_entry(#[trigger] v[k], clicks, slug, cutoff)
    &&& forall|i: int| 0 <= i < clicks.len() && (#[trigger] clicks[i]).slug@ == slug && clicks[i].clicked_at >= cutoff
        ==> exists|k: int| 0 <= k < v.len() && v[k].0@ == day_key(clicks[i].clicked_at / SECS_PER_DAY)
}

/// Click events of every link.
pub trait ClickRepository {
    /// The store cannot fail; any other store may report a failure as
    /// `CoreError::Repository`.
    spec fn reliable(&self) -> bool;

    /// Stored clicks, in the order they were recorded.
    spec fn clicks(&self) -> Seq<ClickEvent>;

    fn record_click(&mut self, event: ClickEvent) -> (r: Result<(), CoreError>)
        ensures
            match r {
                Ok(()) => final(self).clicks() == old(self).clicks().push(event),
                Err(CoreError::Repository(_)) => !old(self).reliable(),
                Err(_) => false,
            };

    /// The `limit` most recent clicks on `slug`, newest first.
    fn get_clicks(&self, slug: &Slug, limit: usize) -> (r: Result<Vec<ClickEvent>, CoreError>)
        ensures
            match r {
                Ok(v) => exists|w: Seq<ClickEvent>| newest_first(w)
                    && w.to_multiset() == clicks_on(self.clicks(), slug@).to_multiset()
                    && v@ == first_n(w, limit as nat),
                Err(CoreError::Repository(_)) => !self.reliable(),
                Err(_) => false,
            };

    /// Number of clicks on `slug` at or after `since`.
    fn get_click_count_since(&self, slug: &Slug, since: u64) -> (r: Result<u64, CoreError>)
        ensures
            match r {
                Ok(n) => n == count_since(self.clicks(), slug@, since),
                Err(CoreError::Repository(_)) => !self.reliable(),
                Err(_) => false,
            };

    /// Clicks on `slug` per day over the `days` days before `now`, keyed
    /// `day-N` (days since the epoch) in ascending key order.
    fn get_clicks_by_day(&self, slug: &Slug, days: usize, now: u64) -> (r: Result<Vec<(String, u64)>, CoreError>)
        ensures
            match r {
                Ok(v) => day_counts(v@, self.clicks(), slug@, day_cutoff(now, days)),
                Err(CoreError::Repository(_)) => !self.reliable(),
                Err(_) => false,
            };
}

/// Start of the window of `days` days before `now`; the epoch when that is earlier.
pub open spec fn day_cutoff(now: u64, days: usize) -> u64 {
    if days as int * SECS_PER_DAY as int > now as int {
        0
    } else {
        (now as int - days as int * SECS_PER_DAY as int) as u64
    }
}

pub fn cutoff_of(now: u64, days: usize) -> (r: u64)
    ensures
        r == day_cutoff(now, days),
{
    let d = days as u64;
    if d > now / SECS_PER_DAY {
        assert(days as int * SECS_PER_DAY as int > now as int) by (nonlinear_arith)
            requires
                d as int > now as int / SECS_PER_DAY as int,
                d == days,
        ;
        0
    } else {
        assert(d as int * SECS_PER_DAY as int <= now as int) by (nonlinear_arith)
            requires
                d as int <= now as int / SECS_PER_DAY as int,
        ;
        now - d * SECS_PER_DAY
    }
}

/// Clicks kept in a vector, in the order they were recorded.
pub struct InMemoryClickRepo {
    clicks: Vec<ClickEvent>,
}

impl InMemoryClickRepo {
    pub closed spec fn entries(&self) -> Seq<ClickEvent> {
        self.clicks@
    }

    pub fn new() -> (r: InMemoryClickRepo)
        ensures
            r.clicks() == Seq::<ClickEvent>::empty(),
    {
        InMemoryClickRepo { clicks: Vec::new() }
    }
}

impl Default for InMemoryClickRepo {
    fn default() -> (r: InMemoryClickRepo)
        ensures
            r.clicks() == Seq::<ClickEvent>::empty(),
    {
        InMemoryClickRepo::new()
    }
}

impl ClickRepository for InMemoryClickRepo {
    open spec fn reliable(&self) -> bool {
        true
    }

    open spec fn clicks(&self) -> Seq<ClickEvent> {
        self.entries()
    }

    fn record_click(&mut self, event: ClickEvent) -> (r: Result<(), CoreError>) {
        self.clicks.push(event);
        Ok(())
    }

    fn get_clicks(&self, slug: &Slug, limit: usize) -> (r: Result<Vec<ClickEvent>, CoreError>) {
        let mut matching: Vec<ClickEvent> = Vec::new();
        let mut i: usize = 0;
        while i < self.clicks.len()
            invariant
                i <= self.clicks@.len(),
                matching@ == clicks_on(self.clicks@.subrange(0, i as int), slug@),
            decreases self.clicks@.len() - i,
        {
            assert(self.clicks@.subrange(0, i as int + 1).drop_last() =~= self.clicks@.subrange(0, i as int));
            if str_eq(self.clicks[i].slug.as_str(), slug.as_str()) {
                matching.push(self.clicks[i].duplicate());
            }
            i += 1;
        }
        assert(self.clicks@.subrange(0, self.clicks@.len() as int) =~= self.clicks@);
        let mut sorted = sort_newest_first(matching);
        let ghost w = sorted@;
        keep_first(&mut sorted, limit);
        assert(newest_first(w) && w.to_multiset() == clicks_on(self.clicks@, slug@).to_multiset()
            && sorted@ == first_n(w, limit as nat));
        Ok(sorted)
    }

    fn get_click_count_since(&self, slug: &Slug, since: u64) -> (r: Result<u64, CoreError>) {
        let mut n: u64 = 0;
        let mut i: usize = 0;
        while i < self.clicks.len()
            invariant
                i <= self.clicks@.len(),
                n as nat == count_since(self.clicks@.subrange(0, i as int), slug@, since),
                n <= i,
            decreases self.clicks@.len() - i,
        {
            assert(self.clicks@.subrange(0, i as int + 1).drop_last() =~= self.clicks@.subrange(0, i as int));
            let c = &self.clicks[i];
            if str_eq(c.slug.as_str(), slug.as_str()) && c.clicked_at >= since {
                n += 1;
            }
            i += 1;
        }
        assert(self.clicks@.subrange(0, self.clicks@.len() as int) =~= self.clicks@);
        Ok(n)
    }

    fn get_clicks_by_day(&self, slug: &Slug, days: usize, now: u64) -> (r: Result<Vec<(String, u64)>, CoreError>) {
        let cutoff = cutoff_of(now, days);
        let ghost cs = self.clicks@;
        let mut counts: Vec<(u64, u64)> = Vec::new();
        let mut i: usize = 0;
        while i < self.clicks.len()
            invariant
                i <= cs.len(),
                cs == self.clicks@,
                cutoff == day_cutoff(now, days),
                forall|k: int| 0 <= k < counts@.len() ==> {
                    &&& (#[trigger] counts@[k]).1 as nat == count_on_day(cs.subrange(0, i as int), slug@, cutoff, counts@[k].0)
                    &&& counts@[k].1 > 0
                    &&& counts@[k].1 <= i
                },
                forall|a: int, b: int| 0 <= a < b < counts@.len() ==> (#[trigger] counts@[a]).0 != (#[trigger] counts@[b]).0,
                forall|j: int| 0 <= j < i && (#[trigger] cs[j]).slug@ == slug@ && cs[j].clicked_at >= cutoff
                    ==> exists|k: int| 0 <= k < counts@.len() && counts@[k].0 == cs[j].clicked_at / SECS_PER_DAY,
            decreases cs.len() - i,
        {
            let ghost pre = cs.subrange(0, i as int);
            let ghost next = cs.subrange(0, i as int + 1);
            assert(next.drop_last() =~= pre);
            let c = &self.clicks[i];
            if str_eq(c.slug.as_str(), slug.as_str()) && c.clicked_at >= cutoff {
                let day = c.clicked_at / SECS_PER_DAY;
                let mut k: usize = 0;
                while k < counts.len()
                    invariant
                        k <= counts@.len(),
                        forall|l: int| 0 <= l < k ==> (#[trigger] counts@[l]).0 != day,
                    ensures
                        k <= counts@.len(),
                        forall|l: int| 0 <= l < k ==> (#[trigger] counts@[l]).0 != day,
                        k == counts@.len() || counts@[k as int].0 == day,
                    decreases counts@.len() - k,
                {
                    if counts[k].0 == day {
                        break;
                    }
                    k += 1;
                }
                let ghost before = counts@;
                proof {
                    if k == counts@.len() && count_on_day(pre, slug@, cutoff, day) > 0 {
                        lemma_count_on_day_witness(pre, slug@, cutoff, day);
                        let j = choose|j: int| 0 <= j < pre.len() && (#[trigger] pre[j]).slug@ == slug@
                            && pre[j].clicked_at >= cutoff && pre[j].clicked_at / SECS_PER_DAY == day;
                        assert(pre[j] == cs[j]);
                        let m = choose|m: int| 0 <= m < counts@.len() && counts@[m].0 == cs[j].clicked_at / SECS_PER_DAY;
                        assert(counts@[m].0 != day);
                    }
                }
                if k < counts.len() {
                    let entry = (day, counts[k].1 + 1);
                    counts.set(k, entry);
                } else {
                    counts.push((day, 1));
                }
                assert(next.last() == cs[i as int]);
                assert forall|l: int| 0 <= l < counts@.len() implies {
                    &&& (#[trigger] counts@[l]).1 as nat == count_on_day(next, slug@, cutoff, counts@[l].0)
                    &&& counts@[l].1 > 0
                    &&& counts@[l].1 <= i + 1
                } by {
                    if l < before.len() && l != k {
                        assert(counts@[l] == before[l]);
                        if k < before.len() {
                            assert(before[l].0 != before[k as int].0);
                        } else {
                            assert(before[l].0 != day);
                        }
                    }
                }
                assert forall|a: int, b: int| 0 <= a < b < counts@.len() implies (#[trigger] counts@[a]).0 != (#[trigger] counts@[b]).0 by {
                    if b < before.len() {
                        if a != k && b != k {
                            assert(counts@[a] == before[a] && counts@[b] == before[b]);
                        } else if a == k {
                            assert(counts@[b] == before[b]);
                        } else {
                            assert(counts@[a] == before[a]);
                        }
                    } else {
                        assert(counts@[a] == before[a]);
                    }
                }
                assert forall|j: int| 0 <= j < i + 1 && (#[trigger] cs[j]).slug@ == slug@ && cs[j].clicked_at >= cutoff
                    implies exists|m: int| 0 <= m < counts@.len() && counts@[m].0 == cs[j].clicked_at / SECS_PER_DAY by {
                    if j < i {
                        let m = choose|m: int| 0 <= m < before.len() && before[m].0 == cs[j].clicked_at / SECS_PER_DAY;
                        assert(counts@[m].0 == before[m].0);
                    } else {
                        assert(counts@[k as int].0 == day);
                    }
                }
            } else {
                assert(next.last() == cs[i as int]);
                assert forall|l: int| 0 <= l < counts@.len() implies {
                    &&& (#[trigger] counts@[l]).1 as nat == count_on_day(next, slug@, cutoff, counts@[l].0)
                    &&& counts@[l].1 > 0
                    &&& counts@[l].1 <= i + 1
                } by {}
            }
            i += 1;
        }
        assert(cs.subrange(0, cs.len() as int) =~= cs);
        let mut out: Vec<(String, u64)> = Vec::new();
        let mut k: usize = 0;
        while k < counts.len()
            invariant
                k <= counts@.len(),
                cs == self.clicks@,
                cutoff == day_cutoff(now, days),
                keys_ascending(out@),
                forall|l: int| 0 <= l < counts@.len() ==> {
                    &&& (#[trigger] counts@[l]).1 as nat == count_on_day(cs, slug@, cutoff, counts@[l].0)
                    &&& counts@[l].1 > 0
                },
                forall|m: int| 0 <= m < out@.len() ==> day_entry(#[trigger] out@[m], cs, slug@, cutoff),
                forall|l: int| 0 <= l < k ==> exists|m: int| 0 <= m < out@.len() && out@[m].0@ == day_key((#[trigger] counts@[l]).0),
            decreases counts@.len() - k,
        {
            proof {
                reveal_strlit("day-");
            }
            let key = owned("day-").concat(decimal_u64(counts[k].0).as_str());
            let ghost before = out@;
            insert_by_key(&mut out, (key, counts[k].1));
            let ghost pos = choose|p: int| 0 <= p <= before.len() && out@ == before.insert(p, (key, counts@[k as int].1));
            assert forall|m: int| 0 <= m < out@.len() implies day_entry(#[trigger] out@[m], cs, slug@, cutoff) by {
                if m < pos {
                    assert(out@[m] == before[m]);
                } else if m == pos {
                    let d = counts@[k as int].0;
                    assert(out@[m].0@ == day_key(d));
                    assert(out@[m].1 == count_on_day(cs, slug@, cutoff, d));
                } else {
                    assert(out@[m] == before[m - 1]);
                }
            }
            assert forall|l: int| 0 <= l < k + 1 implies exists|m: int| 0 <= m < out@.len() && out@[m].0@ == day_key((#[trigger] counts@[l]).0) by {
                if l < k {
                    let m = choose|m: int| 0 <= m < before.len() && before[m].0@ == day_key(counts@[l].0);
                    if m < pos {
                        assert(out@[m] == before[m]);
                    } else {
                        assert(out@[m + 1] == before[m]);
                    }
                } else {
                    assert(out@[pos].0@ == day_key(counts@[l].0));
                }
            }
            k += 1;
        }
        assert forall|j: int| 0 <= j < cs.len() && (#[trigger] cs[j]).slug@ == slug@ && cs[j].clicked_at >= cutoff
            implies exists|m: int| 0 <= m < out@.len() && out@[m].0@ == day_key(cs[j].clicked_at / SECS_PER_DAY) by {
            let l = choose|l: int| 0 <= l < counts@.len() && counts@[l].0 == cs[j].clicked_at / SECS_PER_DAY;
            assert(exists|m: int| 0 <= m < out@.len() && out@[m].0@ == day_key((#[trigger] counts@[l]).0));
        }
        assert(self.clicks() == cs);
        assert(day_counts(out@, cs, slug@, cutoff));
        Ok(out)
    }
}

} // verus!
