//! Audit log: the storage interface and an in-memory store.

use vstd::prelude::*;
use crate::model::{AuditEntry, CoreError, UserEmail};
use crate::sort::{first_n, keep_first, newest_first, sort_newest_first, Stamped};
use crate::text::str_eq;

verus! {

impl Stamped for AuditEntry {
    open spec fn stamp(&self) -> u64 {
        self.timestamp
    }

    fn stamp_of(&self) -> (r: u64) {
        self.timestamp
    }
}

/// Which entries a listing selects (used in specifications only).
pub enum AuditFilter {
    Target(Seq<char>, Seq<char>),
    Actor(Seq<char>),
    All,
}

pub open spec fn audit_selects(f: AuditFilter, e: AuditEntry) -> bool {
    match f {
        AuditFilter::Target(t, id) => e.target_type@ == t && e.target_id@ == id,
        AuditFilter::Actor(a) => e.actor_email@ == a,
        AuditFilter::All => true,
    }
}

/// The entries of `s` that `f` selects, in order.
pub open spec fn audit_selected(s: Seq<AuditEntry>, f: AuditFilter) -> Seq<AuditEntry>
    decreases s.len(),
{
    if s.len() == 0 {
        Seq::empty()
    } else if audit_selects(f, s.last()) {
        audit_selected(s.drop_last(), f).push(s.last())
    } else {
        audit_selected(s.drop_last(), f)
    }
}

/// `v` is the `limit` newest of the entries of `s` that `f` selects, newest first.
pub open spec fn newest_selected(v: Seq<AuditEntry>, s: Seq<AuditEntry>, f: AuditFilter, limit: usize) -> bool {
    exists|w: Seq<AuditEntry>| newest_first(w) && w.to_multiset() == audit_selected(s, f).to_multiset()
        && v == first_n(w, limit as nat)
}

/// Records of changes.
pub trait AuditRepository {
    /// The store cannot fail; any other store may report a failure as
    /// `CoreError::Repository`.
    spec fn reliable(&self) -> bool;

    /// Stored entries, in the order they were logged.
    spec fn entries(&self) -> Seq<AuditEntry>;

    fn log(&mut self, entry: AuditEntry) -> (r: Result<(), CoreError>)
        ensures
            match r {
                Ok(()) => final(self).entries() == old(self).entries().push(entry),
                Err(CoreError::Repository(_)) => !old(self).reliable(),
                Err(_) => false,
            };

    /// The `limit` newest entries about one target, newest first.
    fn list_for_target(&self, target_type: &str, target_id: &str, limit: usize) -> (r: Result<Vec<AuditEntry>, CoreError>)
        ensures
            match r {
                Ok(v) => newest_selected(v@, self.entries(), AuditFilter::Target(target_type@, target_id@), limit),
                Err(CoreError::Repository(_)) => !self.reliable(),
                Err(_) => false,
            };

    /// The `limit` newest entries by one actor, newest first.
    fn list_by_actor(&self, actor_email: &UserEmail, limit: usize) -> (r: Result<Vec<AuditEntry>, CoreError>)
        ensures
            match r {
                Ok(v) => newest_selected(v@, self.entries(), AuditFilter::Actor(actor_email@), limit),
                Err(CoreError::Repository(_)) => !self.reliable(),
                Err(_) => false,
            };

    /// The `limit` newest entries, newest first.
    fn list_recent(&self, limit: usize) -> (r: Result<Vec<AuditEntry>, CoreError>)
        ensures
            match r {
                Ok(v) => newest_selected(v@, self.entries(), AuditFilter::All, limit),
                Err(CoreError::Repository(_)) => !self.reliable(),
                Err(_) => false,
            };
}

/// Audit entries kept in a vector, in the order they were logged.
pub struct InMemoryAuditRepo {
    log: Vec<AuditEntry>,
}

impl InMemoryAuditRepo {
    pub closed spec fn logged(&self) -> Seq<AuditEntry> {
        self.log@
    }

    pub fn new() -> (r: InMemoryAuditRepo)
        ensures
            r.entries() == Seq::<AuditEntry>::empty(),
    {
        InMemoryAuditRepo { log: Vec::new() }
    }

    /// The `limit` newest entries that pass the filter, newest first.
    fn newest(&self, target: Option<(&str, &str)>, actor: Option<&UserEmail>, limit: usize) -> (r: Vec<AuditEntry>)
        requires
            !(target is Some && actor is Some),
        ensures
            newest_selected(r@, self.log@, match target {
                Some(t) => AuditFilter::Target(t.0@, t.1@),
                None => match actor {
                    Some(a) => AuditFilter::Actor(a@),
                    None => AuditFilter::All,
                },
            }, limit),
    {
        let ghost f = match target {
            Some(t) => AuditFilter::Target(t.0@, t.1@),
            None => match actor {
                Some(a) => AuditFilter::Actor(a@),
                None => AuditFilter::All,
            },
        };
        let mut matching: Vec<AuditEntry> = Vec::new();
        let mut i: usize = 0;
        while i < self.log.len()
            invariant
                i <= self.log@.len(),
                f == (match target {
                    Some(t) => AuditFilter::Target(t.0@, t.1@),
                    None => match actor {
                        Some(a) => AuditFilter::Actor(a@),
                        None => AuditFilter::All,
                    },
                }),
                matching@ == audit_selected(self.log@.subrange(0, i as int), f),
            decreases self.log@.len() - i,
        {
            assert(self.log@.subrange(0, i as int + 1).drop_last() =~= self.log@.subrange(0, i as int));
            let e = &self.log[i];
            let wanted = match target {
                Some(t) => str_eq(e.target_type.as_str(), t.0) && str_eq(e.target_id.as_str(), t.1),
                None => match actor {
                    Some(a) => str_eq(e.actor_email.as_str(), a.as_str()),
                    None => true,
                },
            };
            if wanted {
                matching.push(e.duplicate());
            }
            i += 1;
        }
        assert(self.log@.subrange(0, self.log@.len() as int) =~= self.log@);
        let mut sorted = sort_newest_first(matching);
        let ghost w = sorted@;
        keep_first(&mut sorted, limit);
        assert(newest_first(w) && w.to_multiset() == audit_selected(self.log@, f).to_multiset()
            && sorted@ == first_n(w, limit as nat));
        sorted
    }
}

impl Default for InMemoryAuditRepo {
    fn default() -> (r: InMemoryAuditRepo)
        ensures
            r.entries() == Seq::<AuditEntry>::empty(),
    {
        InMemoryAuditRepo::new()
    }
}

impl AuditRepository for InMemoryAuditRepo {
    open spec fn reliable(&self) -> bool {
        true
    }

    open spec fn entries(&self) -> Seq<AuditEntry> {
        self.logged()
    }

    fn log(&mut self, entry: AuditEntry) -> (r: Result<(), CoreError>) {
        self.log.push(entry);
        Ok(())
    }

    fn list_for_target(&self, target_type: &str, target_id: &str, limit: usize) -> (r: Result<Vec<AuditEntry>, CoreError>) {
        Ok(self.newest(Some((target_type, target_id)), None, limit))
    }

    fn list_by_actor(&self, actor_email: &UserEmail, limit: usize) -> (r: Result<Vec<AuditEntry>, CoreError>) {
        Ok(self.newest(None, Some(actor_email), limit))
    }

    fn list_recent(&self, limit: usize) -> (r: Result<Vec<AuditEntry>, CoreError>) {
        Ok(self.newest(None, None, limit))
    }
}

} // verus!
