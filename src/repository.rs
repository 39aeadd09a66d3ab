//! Storage interface for links, stated over the links a repository holds in its
//! listing order, and the map from slug to link that they form.

use vstd::prelude::*;
use crate::model::{CoreError, ListOptions, ListResult, ShortLink, Slug, UserEmail};
use crate::sort::{first_n, newest_first};
use crate::text::{has_substring, lower_of};

verus! {

/// `l` matches the lower-cased query `q` in its slug, its URL or its description,
/// each lower-cased.
pub open spec fn matches_query(l: ShortLink, q: Seq<char>) -> bool {
    has_substring(lower_of(l.slug@), q) || has_substring(lower_of(l.original_url@), q) || (l.description is Some
        && has_substring(lower_of(l.description->0@), q))
}

/// `l` passes the filters of `o`.
pub open spec fn listed(l: ShortLink, o: ListOptions) -> bool {
    &&& (o.include_deleted || l.deleted_at is None)
    &&& (o.created_by is Some ==> l.created_by@ == o.created_by->0@)
    &&& (o.group_id is Some ==> (l.group_id is Some && l.group_id->0@ == o.group_id->0@))
    &&& (o.search is Some ==> matches_query(l, lower_of(o.search->0@)))
}

/// `m` after marking deleted at `t` each link that `slugs` names, in turn.
pub open spec fn deleted_all(m: Map<Seq<char>, ShortLink>, slugs: Seq<Slug>, t: u64) -> Map<Seq<char>, ShortLink>
    decreases slugs.len(),
{
    if slugs.len() == 0 {
        m
    } else {
        let p = deleted_all(m, slugs.drop_last(), t);
        let k = slugs.last()@;
        if p.contains_key(k) {
            p.insert(k, ShortLink { deleted_at: Some(t), ..p[k] })
        } else {
            p
        }
    }
}

/// `m` after setting the active flag of each link that `slugs` names, in turn.
pub open spec fn activated_all(m: Map<Seq<char>, ShortLink>, slugs: Seq<Slug>, active: bool, t: u64) -> Map<Seq<char>, ShortLink>
    decreases slugs.len(),
{
    if slugs.len() == 0 {
        m
    } else {
        let p = activated_all(m, slugs.drop_last(), active, t);
        let k = slugs.last()@;
        if p.contains_key(k) {
            p.insert(k, ShortLink { is_active: active, updated_at: Some(t), ..p[k] })
        } else {
            p
        }
    }
}

/// How many entries of `slugs` name a link of `m` (repeats count again).
pub open spec fn count_present(m: Map<Seq<char>, ShortLink>, slugs: Seq<Slug>) -> nat
    decreases slugs.len(),
{
    if slugs.len() == 0 {
        0
    } else if m.contains_key(slugs.last()@) {
        count_present(m, slugs.drop_last()) + 1
    } else {
        count_present(m, slugs.drop_last())
    }
}

/// `l` with one more click, unless its count is already the largest value.
pub open spec fn clicked(l: ShortLink) -> ShortLink {
    ShortLink { click_count: if l.click_count < u64::MAX { (l.click_count + 1) as u64 } else { l.click_count }, ..l }
}

/// Map from slug text to link; a later entry replaces an earlier one with the same slug.
pub open spec fn links_map(s: Seq<ShortLink>) -> Map<Seq<char>, ShortLink>
    decreases s.len(),
{
    if s.len() == 0 {
        Map::empty()
    } else {
        links_map(s.drop_last()).insert(s.last().slug@, s.last())
    }
}

pub open spec fn unique_slugs(s: Seq<ShortLink>) -> bool {
    forall|i: int, j: int| 0 <= i < s.len() && 0 <= j < s.len() && i != j ==> (#[trigger] s[i]).slug@ != (#[trigger] s[j]).slug@
}

/// Which links a listing selects (used in specifications only).
pub enum LinkPick {
    /// Not deleted.
    Live,
    /// Not deleted, created by the user.
    Creator(Seq<char>),
    /// Not deleted, in the group.
    Group(Seq<char>),
    /// Not deleted, matching the lower-cased query.
    Query(Seq<char>),
    /// Passing the filters of the options.
    Options(ListOptions),
}

pub open spec fn picks(p: LinkPick, l: ShortLink) -> bool {
    match p {
        LinkPick::Live => l.deleted_at is None,
        LinkPick::Creator(e) => l.deleted_at is None && l.created_by@ == e,
        LinkPick::Group(g) => l.deleted_at is None && l.group_id is Some && l.group_id->0@ == g,
        LinkPick::Query(q) => l.deleted_at is None && matches_query(l, q),
        LinkPick::Options(o) => listed(l, o),
    }
}

/// The links of `s` that `p` selects, in order.
pub open spec fn picked(s: Seq<ShortLink>, p: LinkPick) -> Seq<ShortLink>
    decreases s.len(),
{
    if s.len() == 0 {
        Seq::empty()
    } else if picks(p, s.last()) {
        picked(s.drop_last(), p).push(s.last())
    } else {
        picked(s.drop_last(), p)
    }
}

/// The page of `w` that starts at `offset` and holds at most `limit` links.
pub open spec fn page<T>(w: Seq<T>, offset: usize, limit: usize) -> Seq<T> {
    if offset >= w.len() {
        Seq::empty()
    } else {
        first_n(w.subrange(offset as int, w.len() as int), limit as nat)
    }
}

/// `p` is the page of the links of `s` that pass `o`, ordered newest first.
pub open spec fn paged(p: ListResult<ShortLink>, s: Seq<ShortLink>, o: ListOptions) -> bool {
    let f = picked(s, LinkPick::Options(o));
    &&& p.total == f.len()
    &&& p.has_more == (o.offset + o.limit < p.total)
    &&& exists|w: Seq<ShortLink>| newest_first(w) && w.to_multiset() == f.to_multiset() && p.items@ == page(w, o.offset, o.limit)
}

/// Persists and loads short links. `entries` is the store's listing order and
/// `links_map(entries)` its content by slug. A store that is `reliable` never
/// fails; any other store may report a failure as `CoreError::Repository`. Other
/// errors are the ones each method names.
pub trait LinkRepository {
    /// Stored links, in listing order.
    spec fn entries(&self) -> Seq<ShortLink>;

    /// The store cannot fail.
    spec fn reliable(&self) -> bool;

    /// The repository's internal invariant, kept by every method; it implies that
    /// slugs are unique.
    spec fn wf(&self) -> bool;

    proof fn lemma_unique(&self)
        requires
            self.wf(),
        ensures
            unique_slugs(self.entries());

    /// The link stored under `slug`, if any.
    fn get(&self, slug: &Slug) -> (r: Result<Option<ShortLink>, CoreError>)
        requires
            self.wf(),
        ensures
            match r {
                Ok(Some(l)) => links_map(self.entries()).contains_key(slug@) && l == links_map(self.entries())[slug@],
                Ok(None) => !links_map(self.entries()).contains_key(slug@),
                Err(CoreError::Repository(_)) => !self.reliable(),
                Err(_) => false,
            };

    /// Stores a link under a slug not yet in use; it comes last in the listing order.
    fn put(&mut self, link: ShortLink) -> (r: Result<(), CoreError>)
        requires
            old(self).wf(),
        ensures
            final(self).wf(),
            final(self).reliable() == old(self).reliable(),
            match r {
                Ok(()) => !links_map(old(self).entries()).contains_key(link.slug@)
                    && final(self).entries() == old(self).entries().push(link),
                Err(CoreError::AlreadyExists) => links_map(old(self).entries()).contains_key(link.slug@)
                    && final(self).entries() == old(self).entries(),
                Err(CoreError::Repository(_)) => !old(self).reliable(),
                Err(_) => false,
            };

    /// The first `limit` links, in listing order, that are not deleted.
    fn list(&self, limit: usize) -> (r: Result<Vec<ShortLink>, CoreError>)
        requires
            self.wf(),
        ensures
            match r {
                Ok(v) => v@ == first_n(picked(self.entries(), LinkPick::Live), limit as nat),
                Err(CoreError::Repository(_)) => !self.reliable(),
                Err(_) => false,
            };

    /// Replaces the stored link with the same slug, in place.
    fn update(&mut self, link: &ShortLink) -> (r: Result<(), CoreError>)
        requires
            old(self).wf(),
        ensures
            final(self).wf(),
            final(self).reliable() == old(self).reliable(),
            match r {
                Ok(()) => exists|i: int| 0 <= i < old(self).entries().len() && (#[trigger] old(self).entries()[i]).slug@
                    == link.slug@ && final(self).entries() == old(self).entries().update(i, *link),
                Err(CoreError::NotFound) => !links_map(old(self).entries()).contains_key(link.slug@)
                    && final(self).entries() == old(self).entries(),
                Err(CoreError::Repository(_)) => !old(self).reliable(),
                Err(_) => false,
            };

    /// Counts one more visit of the link under `slug`; the count stops at its largest value.
    fn increment_click(&mut self, slug: &Slug) -> (r: Result<(), CoreError>)
        requires
            old(self).wf(),
        ensures
            final(self).wf(),
            final(self).reliable() == old(self).reliable(),
            match r {
                Ok(()) => exists|i: int| 0 <= i < old(self).entries().len() && (#[trigger] old(self).entries()[i]).slug@
                    == slug@ && final(self).entries() == old(self).entries().update(i, clicked(old(self).entries()[i])),
                Err(CoreError::NotFound) => !links_map(old(self).entries()).contains_key(slug@)
                    && final(self).entries() == old(self).entries(),
                Err(CoreError::Repository(_)) => !old(self).reliable(),
                Err(_) => false,
            };

    /// The first `limit` links, in listing order, created by `email` and not deleted.
    fn list_by_creator(&self, email: &UserEmail, limit: usize) -> (r: Result<Vec<ShortLink>, CoreError>)
        requires
            self.wf(),
        ensures
            match r {
                Ok(v) => v@ == first_n(picked(self.entries(), LinkPick::Creator(email@)), limit as nat),
                Err(CoreError::Repository(_)) => !self.reliable(),
                Err(_) => false,
            };

    /// The first `limit` links, in listing order, not deleted and matching `query`, ignoring case.
    fn search(&self, query: &str, limit: usize) -> (r: Result<Vec<ShortLink>, CoreError>)
        requires
            self.wf(),
        ensures
            match r {
                Ok(v) => v@ == first_n(picked(self.entries(), LinkPick::Query(lower_of(query@))), limit as nat),
                Err(CoreError::Repository(_)) => !self.reliable(),
                Err(_) => false,
            };

    /// One page of the links that pass the filters, newest first (links with equal
    /// times keep their listing order).
    fn list_paginated(&self, options: &ListOptions) -> (r: Result<ListResult<ShortLink>, CoreError>)
        requires
            self.wf(),
        ensures
            match r {
                Ok(p) => paged(p, self.entries(), *options),
                Err(CoreError::Repository(_)) => !self.reliable(),
                Err(_) => false,
            };

    /// The first `limit` links, in listing order, of group `group_id` and not deleted.
    fn list_by_group(&self, group_id: &str, limit: usize) -> (r: Result<Vec<ShortLink>, CoreError>)
        requires
            self.wf(),
        ensures
            match r {
                Ok(v) => v@ == first_n(picked(self.entries(), LinkPick::Group(group_id@)), limit as nat),
                Err(CoreError::Repository(_)) => !self.reliable(),
                Err(_) => false,
            };

    /// Marks deleted each stored link that `slugs` names; returns how many entries named one.
    fn bulk_delete(&mut self, slugs: &[Slug], deleted_at: u64) -> (r: Result<usize, CoreError>)
        requires
            old(self).wf(),
        ensures
            final(self).wf(),
            final(self).reliable() == old(self).reliable(),
            match r {
                Ok(n) => links_map(final(self).entries()) == deleted_all(links_map(old(self).entries()), slugs@, deleted_at)
                    && final(self).entries().len() == old(self).entries().len()
                    && n == count_present(links_map(old(self).entries()), slugs@),
                Err(CoreError::Repository(_)) => !old(self).reliable(),
                Err(_) => false,
            };

    /// Sets the active flag of each stored link that `slugs` names; returns how many entries named one.
    fn bulk_update_active(&mut self, slugs: &[Slug], is_active: bool, updated_at: u64) -> (r: Result<usize, CoreError>)
        requires
            old(self).wf(),
        ensures
            final(self).wf(),
            final(self).reliable() == old(self).reliable(),
            match r {
                Ok(n) => links_map(final(self).entries()) == activated_all(links_map(old(self).entries()), slugs@, is_active, updated_at)
                    && final(self).entries().len() == old(self).entries().len()
                    && n == count_present(links_map(old(self).entries()), slugs@),
                Err(CoreError::Repository(_)) => !old(self).reliable(),
                Err(_) => false,
            };

    /// Marks the link under `slug` deleted at `deleted_at`, in place.
    fn delete(&mut self, slug: &Slug, deleted_at: u64) -> (r: Result<(), CoreError>)
        requires
            old(self).wf(),
        ensures
            final(self).wf(),
            final(self).reliable() == old(self).reliable(),
            match r {
                Ok(()) => exists|i: int| 0 <= i < old(self).entries().len() && (#[trigger] old(self).entries()[i]).slug@
                    == slug@ && final(self).entries() == old(self).entries().update(
                    i,
                    ShortLink { deleted_at: Some(deleted_at), ..old(self).entries()[i] },
                ),
                Err(CoreError::NotFound) => !links_map(old(self).entries()).contains_key(slug@)
                    && final(self).entries() == old(self).entries(),
                Err(CoreError::Repository(_)) => !old(self).reliable(),
                Err(_) => false,
            };
}

} // verus!
