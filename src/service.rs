//! Application service that creates and resolves short links.

use vstd::prelude::*;
use crate::model::{valid_slug, Clock, CoreError, NewLink, ShortLink, Slug, SlugGenerator, UserEmail};
use crate::repository::{clicked, links_map, picked, LinkPick, LinkRepository};
use crate::sort::first_n;
use crate::text::owned;
use crate::validate::{trim_of, url_problem, validate_custom_slug, validate_original_url};

verus! {

/// Most slugs tried for one generated link.
pub const MAX_SLUG_ATTEMPTS: usize = 100;

/// Creates and resolves links over a repository, a slug generator and a clock.
/// Generated slugs come from a counter that increases, wrapping, with every attempt.
pub struct LinkService<R: LinkRepository, G: SlugGenerator, C: Clock> {
    repo: R,
    slugger: G,
    clock: C,
    next_id: u64,
}

/// The counter value `k` steps after `start`, wrapping after the largest value.
pub open spec fn id_after(start: u64, k: nat) -> u64 {
    ((start as nat + k) % 0x1_0000_0000_0000_0000) as u64
}

/// `link` is a fresh link for `input`: its URL and creator, no clicks, active,
/// and every optional field empty.
pub open spec fn fresh_link(input: NewLink, link: ShortLink) -> bool {
    &&& link.original_url == input.original_url
    &&& link.created_by == input.user_email
    &&& link.click_count == 0
    &&& link.is_active
    &&& link.updated_at is None
    &&& link.expires_at is None
    &&& link.description is None
    &&& link.activate_at is None
    &&& link.redirect_delay is None
    &&& link.deleted_at is None
    &&& link.group_id is None
}

impl<R: LinkRepository, G: SlugGenerator, C: Clock> LinkService<R, G, C> {
    /// Stored links, in the repository's listing order.
    pub closed spec fn entries(&self) -> Seq<ShortLink> {
        self.repo.entries()
    }

    /// Stored links by slug.
    pub open spec fn links(&self) -> Map<Seq<char>, ShortLink> {
        links_map(self.entries())
    }

    /// The repository cannot fail.
    pub closed spec fn reliable(&self) -> bool {
        self.repo.reliable()
    }

    pub closed spec fn wf(&self) -> bool {
        self.repo.wf()
    }

    pub closed spec fn next_id(&self) -> u64 {
        self.next_id
    }

    /// The slug that the generator gives id `id`.
    pub closed spec fn slug_of(&self, id: u64) -> Seq<char> {
        self.slugger.slug_of(id)
    }

    /// Every one of the first `n` ids from the counter gives a slug already in use.
    pub open spec fn taken_from(&self, n: nat) -> bool {
        forall|j: nat| j < n ==> self.links().contains_key(#[trigger] self.slug_of(id_after(self.next_id(), j)))
    }

    pub fn new(repo: R, slugger: G, clock: C) -> (r: Self)
        requires
            repo.wf(),
        ensures
            r.wf(),
            r.entries() == repo.entries(),
            r.reliable() == repo.reliable(),
            r.next_id() == 0,
            forall|id: u64| #[trigger] r.slug_of(id) == slugger.slug_of(id),
    {
        LinkService { repo, slugger, clock, next_id: 0 }
    }

    /// Takes the next id; the counter wraps after the largest value.
    fn reserve_id(&mut self) -> (r: u64)
        ensures
            r == old(self).next_id,
            final(self).next_id == id_after(old(self).next_id, 1),
            final(self).repo == old(self).repo,
            final(self).slugger == old(self).slugger,
    {
        let id = self.next_id;
        self.next_id = if id == u64::MAX { 0 } else { id + 1 };
        id
    }

    fn persist_with_slug(&mut self, slug: Slug, input: NewLink) -> (r: Result<ShortLink, CoreError>)
        requires
            old(self).wf(),
            !old(self).links().contains_key(slug@),
        ensures
            final(self).wf(),
            final(self).reliable() == old(self).reliable(),
            final(self).slugger == old(self).slugger,
            final(self).next_id == old(self).next_id,
            match r {
                Ok(link) => link.slug == slug && fresh_link(input, link)
                    && final(self).entries() == old(self).entries().push(link),
                Err(CoreError::Repository(_)) => !old(self).reliable(),
                Err(_) => false,
            },
    {
        let now = self.clock.now();
        let link = ShortLink::new(slug, input.original_url, now, input.user_email);
        let stored = link.duplicate();
        match self.repo.put(stored) {
            Ok(()) => Ok(link),
            Err(e) => Err(e),
        }
    }

    /// Creates a link: the URL must be valid; a custom slug must be free, else
    /// slugs are taken from the counter until a free one is found, at most
    /// `MAX_SLUG_ATTEMPTS` of them. The link's creation time is the clock's reading.
    pub fn create(&mut self, input: NewLink) -> (r: Result<ShortLink, CoreError>)
        requires
            old(self).wf(),
        ensures
            final(self).wf(),
            final(self).reliable() == old(self).reliable(),
            url_problem(trim_of(input.original_url@)) is Some ==> (r matches Err(CoreError::InvalidUrl(_))
                && final(self).entries() == old(self).entries()),
            match r {
                Ok(link) => url_problem(trim_of(input.original_url@)) is None && fresh_link(input, link)
                    && !old(self).links().contains_key(link.slug@)
                    && final(self).entries() == old(self).entries().push(link)
                    && match input.custom_slug {
                    Some(c) => link.slug == c,
                    None => exists|k: nat| k < MAX_SLUG_ATTEMPTS && link.slug@ == old(self).slug_of(
                        id_after(old(self).next_id(), k),
                    ) && old(self).taken_from(k),
                },
                Err(CoreError::InvalidUrl(_)) => url_problem(trim_of(input.original_url@)) is Some,
                Err(CoreError::InvalidSlug(_)) => input.custom_slug is Some && !valid_slug(input.custom_slug->0@),
                Err(CoreError::AlreadyExists) => input.custom_slug is Some
                    && old(self).links().contains_key(input.custom_slug->0@)
                    && final(self).entries() == old(self).entries(),
                Err(CoreError::Repository(m)) => !old(self).reliable() || (input.custom_slug is None
                    && m@ == "failed to generate unique slug"@
                    && old(self).taken_from(MAX_SLUG_ATTEMPTS as nat)
                    && final(self).entries() == old(self).entries()),
                Err(_) => false,
            },
    {
        match validate_original_url(input.original_url.as_str()) {
            Ok(()) => {},
            Err(e) => return Err(e),
        }
        if let Some(custom) = &input.custom_slug {
            match validate_custom_slug(custom.as_str()) {
                Ok(_) => {},
                Err(e) => return Err(e),
            }
            let slug = custom.duplicate();
            match self.repo.get(&slug) {
                Ok(Some(_)) => return Err(CoreError::AlreadyExists),
                Ok(None) => {},
                Err(e) => return Err(e),
            }
            return self.persist_with_slug(slug, input);
        }
        let ghost start = *self;
        let mut attempt: usize = 0;
        while attempt < MAX_SLUG_ATTEMPTS
            invariant
                self.wf(),
                self.repo == start.repo,
                self.slugger == start.slugger,
                start == *old(self),
                attempt <= MAX_SLUG_ATTEMPTS,
                self.next_id == id_after(start.next_id, attempt as nat),
                start.taken_from(attempt as nat),
                input.custom_slug is None,
                url_problem(trim_of(input.original_url@)) is None,
            decreases MAX_SLUG_ATTEMPTS - attempt,
        {
            let ghost before = self.next_id;
            let id = self.reserve_id();
            proof {
                vstd::arithmetic::div_mod::lemma_add_mod_noop(
                    start.next_id as int + attempt as int,
                    1,
                    0x1_0000_0000_0000_0000,
                );
            }
            assert(self.next_id == id_after(start.next_id, attempt as nat + 1));
            let slug = self.slugger.next_slug(id);
            match self.repo.get(&slug) {
                Ok(None) => {
                    assert(slug@ == start.slug_of(id_after(start.next_id(), attempt as nat)));
                    return self.persist_with_slug(slug, input);
                },
                Ok(Some(_)) => {
                    assert forall|j: nat| j < attempt as nat + 1 implies start.links().contains_key(
                        #[trigger] start.slug_of(id_after(start.next_id(), j)),
                    ) by {
                        if j == attempt as nat {
                            assert(start.slug_of(id_after(start.next_id(), j)) == slug@);
                        }
                    }
                },
                Err(e) => return Err(e),
            }
            attempt += 1;
        }
        Err(CoreError::Repository(owned("failed to generate unique slug")))
    }

    /// The target URL of the link under `slug`.
    pub fn resolve(&self, slug: &Slug) -> (r: Result<String, CoreError>)
        requires
            self.wf(),
        ensures
            match r {
                Ok(url) => self.links().contains_key(slug@) && url == self.links()[slug@].original_url,
                Err(CoreError::NotFound) => !self.links().contains_key(slug@),
                Err(CoreError::Repository(_)) => !self.reliable(),
                Err(_) => false,
            },
    {
        match self.repo.get(slug) {
            Ok(Some(link)) => Ok(link.original_url),
            Ok(None) => Err(CoreError::NotFound),
            Err(e) => Err(e),
        }
    }

    /// The first `limit` links, in listing order, that are not deleted.
    pub fn list(&self, limit: usize) -> (r: Result<Vec<ShortLink>, CoreError>)
        requires
            self.wf(),
        ensures
            match r {
                Ok(v) => v@ == first_n(picked(self.entries(), LinkPick::Live), limit as nat),
                Err(CoreError::Repository(_)) => !self.reliable(),
                Err(_) => false,
            },
    {
        self.repo.list(limit)
    }

    /// Replaces the stored link with the same slug, in place.
    pub fn update(&mut self, link: &ShortLink) -> (r: Result<(), CoreError>)
        requires
            old(self).wf(),
        ensures
            final(self).wf(),
            final(self).reliable() == old(self).reliable(),
            match r {
                Ok(()) => exists|i: int| 0 <= i < old(self).entries().len() && (#[trigger] old(self).entries()[i]).slug@
                    == link.slug@ && final(self).entries() == old(self).entries().update(i, *link),
                Err(CoreError::NotFound) => !old(self).links().contains_key(link.slug@)
                    && final(self).entries() == old(self).entries(),
                Err(CoreError::Repository(_)) => !old(self).reliable(),
                Err(_) => false,
            },
    {
        let ghost e0 = self.repo.entries();
        let r = self.repo.update(link);
        proof {
            if r is Ok {
                let i = choose|i: int| 0 <= i < e0.len() && (#[trigger] e0[i]).slug@ == link.slug@
                    && self.repo.entries() == e0.update(i, *link);
                assert(old(self).entries()[i] == e0[i]);
            }
        }
        r
    }

    /// Counts one more visit of the link under `slug`.
    pub fn increment_click(&mut self, slug: &Slug) -> (r: Result<(), CoreError>)
        requires
            old(self).wf(),
        ensures
            final(self).wf(),
            final(self).reliable() == old(self).reliable(),
            match r {
                Ok(()) => exists|i: int| 0 <= i < old(self).entries().len() && (#[trigger] old(self).entries()[i]).slug@
                    == slug@ && final(self).entries() == old(self).entries().update(i, clicked(old(self).entries()[i])),
                Err(CoreError::NotFound) => !old(self).links().contains_key(slug@)
                    && final(self).entries() == old(self).entries(),
                Err(CoreError::Repository(_)) => !old(self).reliable(),
                Err(_) => false,
            },
    {
        let ghost e0 = self.repo.entries();
        let r = self.repo.increment_click(slug);
        proof {
            if r is Ok {
                let i = choose|i: int| 0 <= i < e0.len() && (#[trigger] e0[i]).slug@ == slug@
                    && self.repo.entries() == e0.update(i, clicked(e0[i]));
                assert(old(self).entries()[i] == e0[i]);
            }
        }
        r
    }

    /// The first `limit` links, in listing order, created by `email` and not deleted.
    pub fn list_by_creator(&self, email: &UserEmail, limit: usize) -> (r: Result<Vec<ShortLink>, CoreError>)
        requires
            self.wf(),
        ensures
            match r {
                Ok(v) => v@ == first_n(picked(self.entries(), LinkPick::Creator(email@)), limit as nat),
                Err(CoreError::Repository(_)) => !self.reliable(),
                Err(_) => false,
            },
    {
        self.repo.list_by_creator(email, limit)
    }

    /// The link under `slug`, if any.
    pub fn get(&self, slug: &Slug) -> (r: Result<Option<ShortLink>, CoreError>)
        requires
            self.wf(),
        ensures
            match r {
                Ok(Some(l)) => self.links().contains_key(slug@) && l == self.links()[slug@],
                Ok(None) => !self.links().contains_key(slug@),
                Err(CoreError::Repository(_)) => !self.reliable(),
                Err(_) => false,
            },
    {
        self.repo.get(slug)
    }
}

} // verus!
