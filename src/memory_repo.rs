//! In-memory repositories, for tests and local runs.

use vstd::prelude::*;
use crate::model::{CoreError, ListOptions, ListResult, ShortLink, Slug, UserEmail};
use crate::repository::{
    activated_all, clicked, count_present, deleted_all, links_map, listed, matches_query, page, paged, picked, picks,
    unique_slugs, LinkPick, LinkRepository,
};
use crate::sort::{first_n, sort_newest_first, Stamped};
use crate::text::{contains_text, lowercase, owned, str_eq};

verus! {

broadcast use vstd::seq_lib::to_multiset_len;

proof fn lemma_links_at(s: Seq<ShortLink>, j: int)
    requires
        0 <= j < s.len(),
        unique_slugs(s),
    ensures
        links_map(s).contains_key(s[j].slug@),
        links_map(s)[s[j].slug@] == s[j],
    decreases s.len(),
{
    if j < s.len() - 1 {
        let t = s.drop_last();
        assert(unique_slugs(t)) by {
            assert forall|a: int, b: int| 0 <= a < t.len() && 0 <= b < t.len() && a != b implies (#[trigger] t[a]).slug@ != (#[trigger] t[b]).slug@ by {
                assert(t[a] == s[a] && t[b] == s[b]);
            }
        }
        lemma_links_at(t, j);
        assert(s[s.len() - 1].slug@ != s[j].slug@);
    }
}

proof fn lemma_links_absent_all(s: Seq<ShortLink>, k: Seq<char>)
    requires
        !links_map(s).contains_key(k),
    ensures
        forall|l: int| 0 <= l < s.len() ==> (#[trigger] s[l]).slug@ != k,
    decreases s.len(),
{
    if s.len() > 0 {
        let t = s.drop_last();
        lemma_links_absent_all(t, k);
        assert forall|l: int| 0 <= l < s.len() implies (#[trigger] s[l]).slug@ != k by {
            if l < t.len() {
                assert(t[l] == s[l]);
            }
        }
    }
}

proof fn lemma_links_absent(s: Seq<ShortLink>, k: Seq<char>)
    requires
        forall|l: int| 0 <= l < s.len() ==> (#[trigger] s[l]).slug@ != k,
    ensures
        !links_map(s).contains_key(k),
    decreases s.len(),
{
    if s.len() > 0 {
        let t = s.drop_last();
        assert forall|l: int| 0 <= l < t.len() implies (#[trigger] t[l]).slug@ != k by {
            assert(t[l] == s[l]);
        }
        lemma_links_absent(t, k);
        assert(s[s.len() - 1].slug@ != k);
    }
}

proof fn lemma_links_update(s: Seq<ShortLink>, j: int, x: ShortLink)
    requires
        0 <= j < s.len(),
        unique_slugs(s),
        x.slug@ == s[j].slug@,
    ensures
        links_map(s.update(j, x)) == links_map(s).insert(x.slug@, x),
        unique_slugs(s.update(j, x)),
    decreases s.len(),
{
    let u = s.update(j, x);
    assert(unique_slugs(u)) by {
        assert forall|a: int, b: int| 0 <= a < u.len() && 0 <= b < u.len() && a != b implies (#[trigger] u[a]).slug@ != (#[trigger] u[b]).slug@ by {
            assert(s[a].slug@ != s[b].slug@);
        }
    }
    let t = s.drop_last();
    assert(unique_slugs(t)) by {
        assert forall|a: int, b: int| 0 <= a < t.len() && 0 <= b < t.len() && a != b implies (#[trigger] t[a]).slug@ != (#[trigger] t[b]).slug@ by {
            assert(t[a] == s[a] && t[b] == s[b]);
        }
    }
    if j == s.len() - 1 {
        assert(u.drop_last() =~= t);
        assert(links_map(u) =~= links_map(s).insert(x.slug@, x));
    } else {
        lemma_links_update(t, j, x);
        assert(u.drop_last() =~= t.update(j, x));
        assert(s.last().slug@ != x.slug@) by {
            assert(s[s.len() - 1].slug@ != s[j].slug@);
        }
        assert(links_map(u) =~= links_map(s).insert(x.slug@, x));
    }
}

impl Stamped for ShortLink {
    open spec fn stamp(&self) -> u64 {
        self.created_at
    }

    fn stamp_of(&self) -> (r: u64) {
        self.created_at
    }
}

/// Whether `l` matches the lower-cased query `q`.
pub fn link_matches(l: &ShortLink, q: &str) -> (r: bool)
    ensures
        r == matches_query(*l, q@),
{
    if contains_text(lowercase(l.slug.as_str()).as_str(), q) {
        return true;
    }
    if contains_text(lowercase(l.original_url.as_str()).as_str(), q) {
        return true;
    }
    match &l.description {
        Some(d) => contains_text(lowercase(d.as_str()).as_str(), q),
        None => false,
    }
}

/// Whether `l` passes the filters of `o`.
pub fn link_listed(l: &ShortLink, o: &ListOptions) -> (r: bool)
    ensures
        r == listed(*l, *o),
{
    if !o.include_deleted && l.deleted_at.is_some() {
        return false;
    }
    if let Some(e) = &o.created_by {
        if !str_eq(l.created_by.as_str(), e.as_str()) {
            return false;
        }
    }
    if let Some(g) = &o.group_id {
        match &l.group_id {
            Some(lg) => {
                if !str_eq(lg.as_str(), g.as_str()) {
                    return false;
                }
            },
            None => return false,
        }
    }
    if let Some(q) = &o.search {
        let ql = lowercase(q.as_str());
        if !link_matches(l, ql.as_str()) {
            return false;
        }
    }
    true
}

proof fn lemma_deleted_dom(m: Map<Seq<char>, ShortLink>, ss: Seq<Slug>, t: u64)
    ensures
        deleted_all(m, ss, t).dom() == m.dom(),
    decreases ss.len(),
{
    if ss.len() > 0 {
        lemma_deleted_dom(m, ss.drop_last(), t);
        let p = deleted_all(m, ss.drop_last(), t);
        if p.contains_key(ss.last()@) {
            assert(p.insert(ss.last()@, ShortLink { deleted_at: Some(t), ..p[ss.last()@] }).dom() =~= p.dom());
        }
    }
}

proof fn lemma_activated_dom(m: Map<Seq<char>, ShortLink>, ss: Seq<Slug>, a: bool, t: u64)
    ensures
        activated_all(m, ss, a, t).dom() == m.dom(),
    decreases ss.len(),
{
    if ss.len() > 0 {
        lemma_activated_dom(m, ss.drop_last(), a, t);
        let p = activated_all(m, ss.drop_last(), a, t);
        if p.contains_key(ss.last()@) {
            assert(p.insert(ss.last()@, ShortLink { is_active: a, updated_at: Some(t), ..p[ss.last()@] }).dom() =~= p.dom());
        }
    }
}

/// Which links a collection keeps.
enum Pick<'a> {
    Live,
    Creator(&'a UserEmail),
    Group(&'a str),
    Query(&'a str),
    Options(&'a ListOptions),
}

spec fn pick_spec(p: Pick) -> LinkPick {
    match p {
        Pick::Live => LinkPick::Live,
        Pick::Creator(e) => LinkPick::Creator(e@),
        Pick::Group(g) => LinkPick::Group(g@),
        Pick::Query(q) => LinkPick::Query(q@),
        Pick::Options(o) => LinkPick::Options(*o),
    }
}

fn passes(p: &Pick, l: &ShortLink) -> (r: bool)
    ensures
        r == picks(pick_spec(*p), *l),
{
    match p {
        Pick::Live => l.deleted_at.is_none(),
        Pick::Creator(e) => l.deleted_at.is_none() && str_eq(l.created_by.as_str(), e.as_str()),
        Pick::Group(g) => l.deleted_at.is_none() && match &l.group_id {
            Some(lg) => str_eq(lg.as_str(), g),
            None => false,
        },
        Pick::Query(q) => l.deleted_at.is_none() && link_matches(l, q),
        Pick::Options(o) => link_listed(l, o),
    }
}

/// Link storage in a vector with one link per slug, kept in insertion order.
pub struct InMemoryRepo {
    links: Vec<ShortLink>,
}

impl InMemoryRepo {
    pub closed spec fn contents(&self) -> Seq<ShortLink> {
        self.links@
    }

    pub fn new() -> (r: InMemoryRepo)
        ensures
            r.wf(),
            r.reliable(),
            r.entries() == Seq::<ShortLink>::empty(),
    {
        InMemoryRepo { links: Vec::new() }
    }

    /// The text a link is stored under.
    pub fn key(slug: &Slug) -> (r: String)
        ensures
            r@ == slug@,
    {
        owned(slug.as_str())
    }

    /// Position of the link stored under `slug`.
    fn position(&self, slug: &Slug) -> (r: Option<usize>)
        requires
            unique_slugs(self.links@),
        ensures
            match r {
                Some(i) => i < self.links@.len() && self.links@[i as int].slug@ == slug@
                    && links_map(self.links@).contains_key(slug@)
                    && links_map(self.links@)[slug@] == self.links@[i as int],
                None => !links_map(self.links@).contains_key(slug@),
            },
    {
        let mut i: usize = 0;
        while i < self.links.len()
            invariant
                i <= self.links@.len(),
                unique_slugs(self.links@),
                forall|l: int| 0 <= l < i ==> (#[trigger] self.links@[l]).slug@ != slug@,
            decreases self.links@.len() - i,
        {
            if str_eq(self.links[i].slug.as_str(), slug.as_str()) {
                proof {
                    lemma_links_at(self.links@, i as int);
                }
                return Some(i);
            }
            i += 1;
        }
        proof {
            lemma_links_absent(self.links@, slug@);
        }
        None
    }

    /// The links, in stored order, that `pick` keeps: the first `limit` of them, or all.
    fn collect(&self, pick: Pick, limit: Option<usize>) -> (r: Vec<ShortLink>)
        ensures
            r@ == match limit {
                Some(n) => first_n(picked(self.links@, pick_spec(pick)), n as nat),
                None => picked(self.links@, pick_spec(pick)),
            },
    {
        let ghost p = pick_spec(pick);
        let mut out: Vec<ShortLink> = Vec::new();
        let mut i: usize = 0;
        while i < self.links.len()
            invariant
                i <= self.links@.len(),
                p == pick_spec(pick),
                out@ == match limit {
                    Some(n) => first_n(picked(self.links@.subrange(0, i as int), p), n as nat),
                    None => picked(self.links@.subrange(0, i as int), p),
                },
            decreases self.links@.len() - i,
        {
            let ghost pre = self.links@.subrange(0, i as int);
            assert(self.links@.subrange(0, i as int + 1).drop_last() =~= pre);
            let l = &self.links[i];
            if passes(&pick, l) {
                let room = match limit {
                    Some(n) => out.len() < n,
                    None => true,
                };
                if room {
                    out.push(l.duplicate());
                }
                assert(out@ =~= match limit {
                    Some(n) => first_n(picked(self.links@.subrange(0, i as int + 1), p), n as nat),
                    None => picked(self.links@.subrange(0, i as int + 1), p),
                });
            }
            i += 1;
        }
        assert(self.links@.subrange(0, self.links@.len() as int) =~= self.links@);
        out
    }
}

impl Default for InMemoryRepo {
    fn default() -> (r: InMemoryRepo)
        ensures
            r.wf(),
            r.reliable(),
            r.entries() == Seq::<ShortLink>::empty(),
    {
        InMemoryRepo::new()
    }
}

impl LinkRepository for InMemoryRepo {
    open spec fn entries(&self) -> Seq<ShortLink> {
        self.contents()
    }

    open spec fn reliable(&self) -> bool {
        true
    }

    /// Every slug occurs once.
    open spec fn wf(&self) -> bool {
        unique_slugs(self.contents())
    }

    proof fn lemma_unique(&self) {
    }

    fn get(&self, slug: &Slug) -> (r: Result<Option<ShortLink>, CoreError>) {
        match self.position(slug) {
            Some(i) => Ok(Some(self.links[i].duplicate())),
            None => Ok(None),
        }
    }

    fn put(&mut self, link: ShortLink) -> (r: Result<(), CoreError>) {
        match self.position(&link.slug) {
            Some(_) => Err(CoreError::AlreadyExists),
            None => {
                proof {
                    lemma_links_absent_all(self.links@, link.slug@);
                }
                let ghost before = self.links@;
                self.links.push(link);
                assert(self.links@.drop_last() =~= before);
                assert(unique_slugs(self.links@)) by {
                    assert forall|a: int, b: int| 0 <= a < self.links@.len() && 0 <= b < self.links@.len() && a != b
                        implies (#[trigger] self.links@[a]).slug@ != (#[trigger] self.links@[b]).slug@ by {
                        if a < before.len() {
                            assert(before[a] == self.links@[a]);
                        }
                        if b < before.len() {
                            assert(before[b] == self.links@[b]);
                        }
                    }
                }
                Ok(())
            },
        }
    }

    fn list(&self, limit: usize) -> (r: Result<Vec<ShortLink>, CoreError>) {
        Ok(self.collect(Pick::Live, Some(limit)))
    }

    fn update(&mut self, link: &ShortLink) -> (r: Result<(), CoreError>) {
        match self.position(&link.slug) {
            Some(i) => {
                proof {
                    lemma_links_update(self.links@, i as int, *link);
                }
                let ghost e0 = self.links@;
                self.links.set(i, link.duplicate());
                assert(e0[i as int].slug@ == link.slug@ && self.links@ == e0.update(i as int, *link));
                assert(old(self).entries()[i as int].slug@ == link.slug@);
                Ok(())
            },
            None => Err(CoreError::NotFound),
        }
    }

    fn increment_click(&mut self, slug: &Slug) -> (r: Result<(), CoreError>) {
        match self.position(slug) {
            Some(i) => {
                let mut l = self.links[i].duplicate();
                if l.click_count < u64::MAX {
                    l.click_count = l.click_count + 1;
                }
                assert(l == clicked(self.links@[i as int]));
                proof {
                    lemma_links_update(self.links@, i as int, l);
                }
                let ghost e0 = self.links@;
                self.links.set(i, l);
                assert(e0[i as int].slug@ == slug@ && self.links@ == e0.update(i as int, l));
                assert(old(self).entries()[i as int].slug@ == slug@);
                Ok(())
            },
            None => Err(CoreError::NotFound),
        }
    }

    fn list_by_creator(&self, email: &UserEmail, limit: usize) -> (r: Result<Vec<ShortLink>, CoreError>) {
        Ok(self.collect(Pick::Creator(email), Some(limit)))
    }

    fn search(&self, query: &str, limit: usize) -> (r: Result<Vec<ShortLink>, CoreError>) {
        let q = lowercase(query);
        Ok(self.collect(Pick::Query(q.as_str()), Some(limit)))
    }

    fn list_paginated(&self, options: &ListOptions) -> (r: Result<ListResult<ShortLink>, CoreError>) {
        let matching = self.collect(Pick::Options(options), None);
        let ghost f = matching@;
        let sorted = sort_newest_first(matching);
        assert(sorted@.len() == f.len()) by {
            assert(sorted@.to_multiset().len() == f.to_multiset().len());
        }
        let total = sorted.len();
        let has_more = options.offset < total && options.limit < total - options.offset;
        let mut items: Vec<ShortLink> = Vec::new();
        if options.offset < total {
            let mut j: usize = options.offset;
            while j < total && items.len() < options.limit
                invariant
                    total == sorted@.len(),
                    options.offset <= j <= total,
                    items@.len() == j - options.offset,
                    items@.len() <= options.limit,
                    items@ == sorted@.subrange(options.offset as int, j as int),
                decreases total - j,
            {
                items.push(sorted[j].duplicate());
                assert(items@ =~= sorted@.subrange(options.offset as int, j as int + 1));
                j += 1;
            }
            assert(items@ =~= page(sorted@, options.offset, options.limit));
        } else {
            assert(items@ =~= page(sorted@, options.offset, options.limit));
        }
        let r = ListResult { items, total, has_more };
        assert(paged(r, self.entries(), *options));
        Ok(r)
    }

    fn list_by_group(&self, group_id: &str, limit: usize) -> (r: Result<Vec<ShortLink>, CoreError>) {
        Ok(self.collect(Pick::Group(group_id), Some(limit)))
    }

    fn bulk_delete(&mut self, slugs: &[Slug], deleted_at: u64) -> (r: Result<usize, CoreError>) {
        let ghost start = links_map(self.links@);
        let mut count: usize = 0;
        let mut i: usize = 0;
        while i < slugs.len()
            invariant
                i <= slugs@.len(),
                count <= i,
                unique_slugs(self.links@),
                self.links@.len() == old(self).links@.len(),
                links_map(self.links@) == deleted_all(start, slugs@.subrange(0, i as int), deleted_at),
                count as nat == count_present(start, slugs@.subrange(0, i as int)),
            decreases slugs@.len() - i,
        {
            let ghost pre = slugs@.subrange(0, i as int);
            assert(slugs@.subrange(0, i as int + 1).drop_last() =~= pre);
            assert(slugs@.subrange(0, i as int + 1).last() == slugs@[i as int]);
            proof {
                lemma_deleted_dom(start, pre, deleted_at);
            }
            match self.position(&slugs[i]) {
                Some(p) => {
                    let mut l = self.links[p].duplicate();
                    l.deleted_at = Some(deleted_at);
                    proof {
                        lemma_links_update(self.links@, p as int, l);
                    }
                    self.links.set(p, l);
                    count += 1;
                },
                None => {},
            }
            i += 1;
        }
        assert(slugs@.subrange(0, slugs@.len() as int) =~= slugs@);
        Ok(count)
    }

    fn bulk_update_active(&mut self, slugs: &[Slug], is_active: bool, updated_at: u64) -> (r: Result<usize, CoreError>) {
        let ghost start = links_map(self.links@);
        let mut count: usize = 0;
        let mut i: usize = 0;
        while i < slugs.len()
            invariant
                i <= slugs@.len(),
                count <= i,
                unique_slugs(self.links@),
                self.links@.len() == old(self).links@.len(),
                links_map(self.links@) == activated_all(start, slugs@.subrange(0, i as int), is_active, updated_at),
                count as nat == count_present(start, slugs@.subrange(0, i as int)),
            decreases slugs@.len() - i,
        {
            let ghost pre = slugs@.subrange(0, i as int);
            assert(slugs@.subrange(0, i as int + 1).drop_last() =~= pre);
            assert(slugs@.subrange(0, i as int + 1).last() == slugs@[i as int]);
            proof {
                lemma_activated_dom(start, pre, is_active, updated_at);
            }
            match self.position(&slugs[i]) {
                Some(p) => {
                    let mut l = self.links[p].duplicate();
                    l.is_active = is_active;
                    l.updated_at = Some(updated_at);
                    proof {
                        lemma_links_update(self.links@, p as int, l);
                    }
                    self.links.set(p, l);
                    count += 1;
                },
                None => {},
            }
            i += 1;
        }
        assert(slugs@.subrange(0, slugs@.len() as int) =~= slugs@);
        Ok(count)
    }

    fn delete(&mut self, slug: &Slug, deleted_at: u64) -> (r: Result<(), CoreError>) {
        match self.position(slug) {
            Some(i) => {
                let mut l = self.links[i].duplicate();
                l.deleted_at = Some(deleted_at);
                assert(l == ShortLink { deleted_at: Some(deleted_at), ..self.links@[i as int] });
                proof {
                    lemma_links_update(self.links@, i as int, l);
                }
                let ghost e0 = self.links@;
                self.links.set(i, l);
                assert(e0[i as int].slug@ == slug@ && self.links@ == e0.update(i as int, l));
                assert(old(self).entries()[i as int].slug@ == slug@);
                Ok(())
            },
            None => Err(CoreError::NotFound),
        }
    }
}

} // verus!
