//! Link groups and their members: the storage interface and an in-memory store.

use vstd::prelude::*;
use crate::model::{CoreError, GroupMember, GroupRole, LinkGroup, UserEmail};
use crate::text::str_eq;

verus! {

/// `m` is the membership of `email` in group `gid`.
pub open spec fn is_membership(m: GroupMember, gid: Seq<char>, email: Seq<char>) -> bool {
    m.group_id@ == gid && m.user_email@ == email
}

/// The members of `s` in group `gid`, in order.
pub open spec fn members_of(s: Seq<GroupMember>, gid: Seq<char>) -> Seq<GroupMember>
    decreases s.len(),
{
    if s.len() == 0 {
        Seq::empty()
    } else if s.last().group_id@ == gid {
        members_of(s.drop_last(), gid).push(s.last())
    } else {
        members_of(s.drop_last(), gid)
    }
}

/// `s` without the memberships in group `gid`.
pub open spec fn without_group(s: Seq<GroupMember>, gid: Seq<char>) -> Seq<GroupMember>
    decreases s.len(),
{
    if s.len() == 0 {
        Seq::empty()
    } else if s.last().group_id@ == gid {
        without_group(s.drop_last(), gid)
    } else {
        without_group(s.drop_last(), gid).push(s.last())
    }
}

/// `s` without the membership of `email` in group `gid`.
pub open spec fn without_membership(s: Seq<GroupMember>, gid: Seq<char>, email: Seq<char>) -> Seq<GroupMember>
    decreases s.len(),
{
    if s.len() == 0 {
        Seq::empty()
    } else if is_membership(s.last(), gid, email) {
        without_membership(s.drop_last(), gid, email)
    } else {
        without_membership(s.drop_last(), gid, email).push(s.last())
    }
}

pub open spec fn has_membership(s: Seq<GroupMember>, gid: Seq<char>, email: Seq<char>) -> bool {
    exists|i: int| 0 <= i < s.len() && is_membership(#[trigger] s[i], gid, email)
}

/// Map from group id to group; a later entry replaces an earlier one with the same id.
pub open spec fn groups_map(s: Seq<LinkGroup>) -> Map<Seq<char>, LinkGroup>
    decreases s.len(),
{
    if s.len() == 0 {
        Map::empty()
    } else {
        groups_map(s.drop_last()).insert(s.last().id@, s.last())
    }
}

pub open spec fn unique_ids(s: Seq<LinkGroup>) -> bool {
    forall|i: int, j: int| 0 <= i < s.len() && 0 <= j < s.len() && i != j ==> (#[trigger] s[i]).id@ != (#[trigger] s[j]).id@
}

/// `email` may see group `g`: it created it or is a member of it.
pub open spec fn sees_group(g: LinkGroup, members: Seq<GroupMember>, email: Seq<char>) -> bool {
    g.created_by@ == email || exists|i: int| 0 <= i < members.len() && (#[trigger] members[i]).user_email@ == email
        && members[i].group_id@ == g.id@
}

/// Persists link groups and their members.
pub trait GroupRepository {
    /// The store cannot fail; any other store may report a failure as
    /// `CoreError::Repository`.
    spec fn reliable(&self) -> bool;

    /// Stored groups by id.
    spec fn groups(&self) -> Map<Seq<char>, LinkGroup>;

    /// Stored memberships, in the order they were added.
    spec fn members(&self) -> Seq<GroupMember>;

    spec fn wf(&self) -> bool;

    fn create_group(&mut self, group: LinkGroup) -> (r: Result<(), CoreError>)
        requires
            old(self).wf(),
        ensures
            final(self).wf(),
            final(self).members() == old(self).members(),
            match r {
                Ok(()) => !old(self).groups().contains_key(group.id@)
                    && final(self).groups() == old(self).groups().insert(group.id@, group),
                Err(CoreError::AlreadyExists) => old(self).groups().contains_key(group.id@)
                    && final(self).groups() == old(self).groups(),
                Err(CoreError::Repository(_)) => !old(self).reliable(),
                Err(_) => false,
            };

    fn get_group(&self, id: &str) -> (r: Result<Option<LinkGroup>, CoreError>)
        requires
            self.wf(),
        ensures
            match r {
                Ok(Some(g)) => self.groups().contains_key(id@) && g == self.groups()[id@],
                Ok(None) => !self.groups().contains_key(id@),
                Err(CoreError::Repository(_)) => !self.reliable(),
                Err(_) => false,
            };

    /// Groups that `user_email` created or is a member of.
    fn list_groups(&self, user_email: &UserEmail) -> (r: Result<Vec<LinkGroup>, CoreError>)
        requires
            self.wf(),
        ensures
            match r {
                Ok(v) => forall|i: int| 0 <= i < v@.len() ==> {
                    &&& self.groups().contains_key((#[trigger] v@[i]).id@)
                    &&& self.groups()[v@[i].id@] == v@[i]
                    &&& sees_group(v@[i], self.members(), user_email@)
                },
                Err(CoreError::Repository(_)) => !self.reliable(),
                Err(_) => false,
            };

    fn update_group(&mut self, group: &LinkGroup) -> (r: Result<(), CoreError>)
        requires
            old(self).wf(),
        ensures
            final(self).wf(),
            final(self).members() == old(self).members(),
            match r {
                Ok(()) => old(self).groups().contains_key(group.id@)
                    && final(self).groups() == old(self).groups().insert(group.id@, *group),
                Err(CoreError::NotFound) => !old(self).groups().contains_key(group.id@)
                    && final(self).groups() == old(self).groups(),
                Err(CoreError::Repository(_)) => !old(self).reliable(),
                Err(_) => false,
            };

    /// Deletes a group and its memberships.
    fn delete_group(&mut self, id: &str) -> (r: Result<(), CoreError>)
        requires
            old(self).wf(),
        ensures
            final(self).wf(),
            match r {
                Ok(()) => old(self).groups().contains_key(id@)
                    && final(self).groups() == old(self).groups().remove(id@)
                    && final(self).members() == without_group(old(self).members(), id@),
                Err(CoreError::NotFound) => !old(self).groups().contains_key(id@)
                    && final(self).groups() == old(self).groups()
                    && final(self).members() == old(self).members(),
                Err(CoreError::Repository(_)) => !old(self).reliable(),
                Err(_) => false,
            };

    /// Adds a membership to an existing group; a user is a member at most once.
    fn add_member(&mut self, member: GroupMember) -> (r: Result<(), CoreError>)
        requires
            old(self).wf(),
        ensures
            final(self).wf(),
            final(self).groups() == old(self).groups(),
            match r {
                Ok(()) => old(self).groups().contains_key(member.group_id@)
                    && !has_membership(old(self).members(), member.group_id@, member.user_email@)
                    && final(self).members() == old(self).members().push(member),
                Err(CoreError::NotFound) => !old(self).groups().contains_key(member.group_id@)
                    && final(self).members() == old(self).members(),
                Err(CoreError::AlreadyExists) => old(self).groups().contains_key(member.group_id@)
                    && has_membership(old(self).members(), member.group_id@, member.user_email@)
                    && final(self).members() == old(self).members(),
                Err(CoreError::Repository(_)) => !old(self).reliable(),
                Err(_) => false,
            };

    fn remove_member(&mut self, group_id: &str, user_email: &UserEmail) -> (r: Result<(), CoreError>)
        requires
            old(self).wf(),
        ensures
            final(self).wf(),
            final(self).groups() == old(self).groups(),
            match r {
                Ok(()) => has_membership(old(self).members(), group_id@, user_email@)
                    && final(self).members() == without_membership(old(self).members(), group_id@, user_email@),
                Err(CoreError::NotFound) => !has_membership(old(self).members(), group_id@, user_email@)
                    && final(self).members() == old(self).members(),
                Err(CoreError::Repository(_)) => !old(self).reliable(),
                Err(_) => false,
            };

    fn list_members(&self, group_id: &str) -> (r: Result<Vec<GroupMember>, CoreError>)
        requires
            self.wf(),
        ensures
            match r {
                Ok(v) => v@ == members_of(self.members(), group_id@),
                Err(CoreError::Repository(_)) => !self.reliable(),
                Err(_) => false,
            };

    fn get_member(&self, group_id: &str, user_email: &UserEmail) -> (r: Result<Option<GroupMember>, CoreError>)
        requires
            self.wf(),
        ensures
            match r {
                Ok(Some(m)) => is_membership(m, group_id@, user_email@) && self.members().contains(m),
                Ok(None) => !has_membership(self.members(), group_id@, user_email@),
                Err(CoreError::Repository(_)) => !self.reliable(),
                Err(_) => false,
            };

    /// Groups that `user_email` created, as admin, and those it is a member of,
    /// with the member's role.
    fn get_user_groups(&self, user_email: &UserEmail) -> (r: Result<Vec<(LinkGroup, GroupRole)>, CoreError>)
        requires
            self.wf(),
        ensures
            match r {
                Ok(v) => forall|i: int| 0 <= i < v@.len() ==> {
                    &&& self.groups().contains_key((#[trigger] v@[i]).0.id@)
                    &&& self.groups()[v@[i].0.id@] == v@[i].0
                    &&& if v@[i].0.created_by@ == user_email@ {
                        v@[i].1 == GroupRole::Admin
                    } else {
                        exists|j: int| 0 <= j < self.members().len()
                            && is_membership(#[trigger] self.members()[j], v@[i].0.id@, user_email@)
                            && self.members()[j].role == v@[i].1
                    }
                },
                Err(CoreError::Repository(_)) => !self.reliable(),
                Err(_) => false,
            };
}

proof fn lemma_unique_prefix(s: Seq<LinkGroup>)
    requires
        unique_ids(s),
        s.len() > 0,
    ensures
        unique_ids(s.drop_last()),
{
    let t = s.drop_last();
    assert forall|a: int, b: int| 0 <= a < t.len() && 0 <= b < t.len() && a != b implies (#[trigger] t[a]).id@ != (#[trigger] t[b]).id@ by {
        assert(t[a] == s[a] && t[b] == s[b]);
    }
}

proof fn lemma_groups_at(s: Seq<LinkGroup>, j: int)
    requires
        0 <= j < s.len(),
        unique_ids(s),
    ensures
        groups_map(s).contains_key(s[j].id@),
        groups_map(s)[s[j].id@] == s[j],
    decreases s.len(),
{
    if j < s.len() - 1 {
        lemma_unique_prefix(s);
        lemma_groups_at(s.drop_last(), j);
        assert(s[s.len() - 1].id@ != s[j].id@);
    }
}

proof fn lemma_groups_absent(s: Seq<LinkGroup>, k: Seq<char>)
    ensures
        groups_map(s).contains_key(k) <==> exists|l: int| 0 <= l < s.len() && (#[trigger] s[l]).id@ == k,
    decreases s.len(),
{
    if s.len() > 0 {
        let t = s.drop_last();
        lemma_groups_absent(t, k);
        if groups_map(t).contains_key(k) {
            let l = choose|l: int| 0 <= l < t.len() && (#[trigger] t[l]).id@ == k;
            assert(s[l] == t[l]);
        }
        if exists|l: int| 0 <= l < s.len() && (#[trigger] s[l]).id@ == k {
            let l = choose|l: int| 0 <= l < s.len() && (#[trigger] s[l]).id@ == k;
            if l < t.len() {
                assert(t[l] == s[l]);
            }
        }
    }
}

proof fn lemma_groups_update(s: Seq<LinkGroup>, j: int, x: LinkGroup)
    requires
        0 <= j < s.len(),
        unique_ids(s),
        x.id@ == s[j].id@,
    ensures
        groups_map(s.update(j, x)) == groups_map(s).insert(x.id@, x),
        unique_ids(s.update(j, x)),
    decreases s.len(),
{
    let u = s.update(j, x);
    assert(unique_ids(u)) by {
        assert forall|a: int, b: int| 0 <= a < u.len() && 0 <= b < u.len() && a != b implies (#[trigger] u[a]).id@ != (#[trigger] u[b]).id@ by {
            assert(s[a].id@ != s[b].id@);
        }
    }
    let t = s.drop_last();
    lemma_unique_prefix(s);
    if j == s.len() - 1 {
        assert(u.drop_last() =~= t);
        assert(groups_map(u) =~= groups_map(s).insert(x.id@, x));
    } else {
        lemma_groups_update(t, j, x);
        assert(u.drop_last() =~= t.update(j, x));
        assert(s[s.len() - 1].id@ != s[j].id@);
        assert(groups_map(u) =~= groups_map(s).insert(x.id@, x));
    }
}

proof fn lemma_groups_remove(s: Seq<LinkGroup>, j: int)
    requires
        0 <= j < s.len(),
        unique_ids(s),
    ensures
        groups_map(s.remove(j)) == groups_map(s).remove(s[j].id@),
        unique_ids(s.remove(j)),
    decreases s.len(),
{
    let u = s.remove(j);
    assert(unique_ids(u)) by {
        assert forall|a: int, b: int| 0 <= a < u.len() && 0 <= b < u.len() && a != b implies (#[trigger] u[a]).id@ != (#[trigger] u[b]).id@ by {
            let sa = if a < j { a } else { a + 1 };
            let sb = if b < j { b } else { b + 1 };
            assert(u[a] == s[sa] && u[b] == s[sb]);
        }
    }
    let t = s.drop_last();
    lemma_unique_prefix(s);
    if j == s.len() - 1 {
        assert(u =~= t);
        lemma_groups_absent(t, s[j].id@);
        if exists|l: int| 0 <= l < t.len() && (#[trigger] t[l]).id@ == s[j].id@ {
            let l = choose|l: int| 0 <= l < t.len() && (#[trigger] t[l]).id@ == s[j].id@;
            assert(t[l] == s[l]);
        }
        assert(groups_map(u) =~= groups_map(s).remove(s[j].id@));
    } else {
        lemma_groups_remove(t, j);
        assert(u.drop_last() =~= t.remove(j));
        assert(u.last() == s.last());
        assert(s[s.len() - 1].id@ != s[j].id@);
        assert(t[j] == s[j]);
        assert(groups_map(u) =~= groups_map(s).remove(s[j].id@));
    }
}

/// Groups and memberships kept in vectors; group ids are unique.
pub struct InMemoryGroupRepo {
    groups: Vec<LinkGroup>,
    members: Vec<GroupMember>,
}

impl InMemoryGroupRepo {
    pub closed spec fn group_entries(&self) -> Seq<LinkGroup> {
        self.groups@
    }

    pub closed spec fn member_entries(&self) -> Seq<GroupMember> {
        self.members@
    }

    pub fn new() -> (r: InMemoryGroupRepo)
        ensures
            r.wf(),
            r.groups() == Map::<Seq<char>, LinkGroup>::empty(),
            r.members() == Seq::<GroupMember>::empty(),
    {
        InMemoryGroupRepo { groups: Vec::new(), members: Vec::new() }
    }

    fn group_position(&self, id: &str) -> (r: Option<usize>)
        requires
            unique_ids(self.groups@),
        ensures
            match r {
                Some(i) => i < self.groups@.len() && self.groups@[i as int].id@ == id@
                    && groups_map(self.groups@).contains_key(id@)
                    && groups_map(self.groups@)[id@] == self.groups@[i as int],
                None => !groups_map(self.groups@).contains_key(id@),
            },
    {
        let mut i: usize = 0;
        while i < self.groups.len()
            invariant
                i <= self.groups@.len(),
                unique_ids(self.groups@),
                forall|l: int| 0 <= l < i ==> (#[trigger] self.groups@[l]).id@ != id@,
            decreases self.groups@.len() - i,
        {
            if str_eq(self.groups[i].id.as_str(), id) {
                proof {
                    lemma_groups_at(self.groups@, i as int);
                }
                return Some(i);
            }
            i += 1;
        }
        proof {
            lemma_groups_absent(self.groups@, id@);
        }
        None
    }

    fn membership_position(&self, group_id: &str, email: &str) -> (r: Option<usize>)
        ensures
            match r {
                Some(i) => i < self.members@.len() && is_membership(self.members@[i as int], group_id@, email@),
                None => !has_membership(self.members@, group_id@, email@),
            },
    {
        let mut i: usize = 0;
        while i < self.members.len()
            invariant
                i <= self.members@.len(),
                forall|l: int| 0 <= l < i ==> !is_membership(#[trigger] self.members@[l], group_id@, email@),
            decreases self.members@.len() - i,
        {
            let m = &self.members[i];
            if str_eq(m.group_id.as_str(), group_id) && str_eq(m.user_email.as_str(), email) {
                return Some(i);
            }
            i += 1;
        }
        None
    }

    /// Whether `email` is a member of group `gid`.
    fn is_member_of(&self, email: &str, gid: &str) -> (r: bool)
        ensures
            r == exists|i: int| 0 <= i < self.members@.len() && (#[trigger] self.members@[i]).user_email@ == email@
                && self.members@[i].group_id@ == gid@,
    {
        match self.membership_position(gid, email) {
            Some(_) => true,
            None => false,
        }
    }
}

impl Default for InMemoryGroupRepo {
    fn default() -> (r: InMemoryGroupRepo)
        ensures
            r.wf(),
            r.groups() == Map::<Seq<char>, LinkGroup>::empty(),
            r.members() == Seq::<GroupMember>::empty(),
    {
        InMemoryGroupRepo::new()
    }
}

impl GroupRepository for InMemoryGroupRepo {
    open spec fn reliable(&self) -> bool {
        true
    }

    open spec fn groups(&self) -> Map<Seq<char>, LinkGroup> {
        groups_map(self.group_entries())
    }

    open spec fn members(&self) -> Seq<GroupMember> {
        self.member_entries()
    }

    open spec fn wf(&self) -> bool {
        unique_ids(self.group_entries())
    }

    fn create_group(&mut self, group: LinkGroup) -> (r: Result<(), CoreError>) {
        match self.group_position(group.id.as_str()) {
            Some(_) => Err(CoreError::AlreadyExists),
            None => {
                proof {
                    lemma_groups_absent(self.groups@, group.id@);
                }
                let ghost before = self.groups@;
                self.groups.push(group);
                assert(self.groups@.drop_last() =~= before);
                assert(unique_ids(self.groups@)) by {
                    assert forall|a: int, b: int| 0 <= a < self.groups@.len() && 0 <= b < self.groups@.len() && a != b
                        implies (#[trigger] self.groups@[a]).id@ != (#[trigger] self.groups@[b]).id@ by {
                        if a < before.len() && b < before.len() {
                            assert(before[a] == self.groups@[a] && before[b] == self.groups@[b]);
                        } else if a < before.len() {
                            assert(before[a] == self.groups@[a]);
                        } else if b < before.len() {
                            assert(before[b] == self.groups@[b]);
                        }
                    }
                }
                Ok(())
            },
        }
    }

    fn get_group(&self, id: &str) -> (r: Result<Option<LinkGroup>, CoreError>) {
        match self.group_position(id) {
            Some(i) => Ok(Some(self.groups[i].duplicate())),
            None => Ok(None),
        }
    }

    fn list_groups(&self, user_email: &UserEmail) -> (r: Result<Vec<LinkGroup>, CoreError>) {
        let mut out: Vec<LinkGroup> = Vec::new();
        let mut i: usize = 0;
        while i < self.groups.len()
            invariant
                i <= self.groups@.len(),
                unique_ids(self.groups@),
                forall|k: int| 0 <= k < out@.len() ==> {
                    &&& groups_map(self.groups@).contains_key((#[trigger] out@[k]).id@)
                    &&& groups_map(self.groups@)[out@[k].id@] == out@[k]
                    &&& sees_group(out@[k], self.members@, user_email@)
                },
            decreases self.groups@.len() - i,
        {
            let g = &self.groups[i];
            if str_eq(g.created_by.as_str(), user_email.as_str()) || self.is_member_of(user_email.as_str(), g.id.as_str()) {
                proof {
                    lemma_groups_at(self.groups@, i as int);
                }
                out.push(g.duplicate());
            }
            i += 1;
        }
        Ok(out)
    }

    fn update_group(&mut self, group: &LinkGroup) -> (r: Result<(), CoreError>) {
        match self.group_position(group.id.as_str()) {
            Some(i) => {
                proof {
                    lemma_groups_update(self.groups@, i as int, *group);
                }
                self.groups.set(i, group.duplicate());
                Ok(())
            },
            None => Err(CoreError::NotFound),
        }
    }

    fn delete_group(&mut self, id: &str) -> (r: Result<(), CoreError>) {
        let i = match self.group_position(id) {
            Some(i) => i,
            None => return Err(CoreError::NotFound),
        };
        proof {
            lemma_groups_remove(self.groups@, i as int);
        }
        self.groups.remove(i);
        let mut kept: Vec<GroupMember> = Vec::new();
        let mut j: usize = 0;
        while j < self.members.len()
            invariant
                j <= self.members@.len(),
                kept@ == without_group(self.members@.subrange(0, j as int), id@),
            decreases self.members@.len() - j,
        {
            assert(self.members@.subrange(0, j as int + 1).drop_last() =~= self.members@.subrange(0, j as int));
            if !str_eq(self.members[j].group_id.as_str(), id) {
                kept.push(self.members[j].duplicate());
            }
            j += 1;
        }
        assert(self.members@.subrange(0, self.members@.len() as int) =~= self.members@);
        self.members = kept;
        Ok(())
    }

    fn add_member(&mut self, member: GroupMember) -> (r: Result<(), CoreError>) {
        match self.group_position(member.group_id.as_str()) {
            Some(_) => {},
            None => return Err(CoreError::NotFound),
        }
        match self.membership_position(member.group_id.as_str(), member.user_email.as_str()) {
            Some(_) => Err(CoreError::AlreadyExists),
            None => {
                self.members.push(member);
                Ok(())
            },
        }
    }

    fn remove_member(&mut self, group_id: &str, user_email: &UserEmail) -> (r: Result<(), CoreError>) {
        match self.membership_position(group_id, user_email.as_str()) {
            Some(_) => {},
            None => return Err(CoreError::NotFound),
        }
        let mut kept: Vec<GroupMember> = Vec::new();
        let mut j: usize = 0;
        while j < self.members.len()
            invariant
                j <= self.members@.len(),
                kept@ == without_membership(self.members@.subrange(0, j as int), group_id@, user_email@),
            decreases self.members@.len() - j,
        {
            assert(self.members@.subrange(0, j as int + 1).drop_last() =~= self.members@.subrange(0, j as int));
            let m = &self.members[j];
            if !(str_eq(m.group_id.as_str(), group_id) && str_eq(m.user_email.as_str(), user_email.as_str())) {
                kept.push(m.duplicate());
            }
            j += 1;
        }
        assert(self.members@.subrange(0, self.members@.len() as int) =~= self.members@);
        self.members = kept;
        Ok(())
    }

    fn list_members(&self, group_id: &str) -> (r: Result<Vec<GroupMember>, CoreError>) {
        let mut out: Vec<GroupMember> = Vec::new();
        let mut j: usize = 0;
        while j < self.members.len()
            invariant
                j <= self.members@.len(),
                out@ == members_of(self.members@.subrange(0, j as int), group_id@),
            decreases self.members@.len() - j,
        {
            assert(self.members@.subrange(0, j as int + 1).drop_last() =~= self.members@.subrange(0, j as int));
            if str_eq(self.members[j].group_id.as_str(), group_id) {
                out.push(self.members[j].duplicate());
            }
            j += 1;
        }
        assert(self.members@.subrange(0, self.members@.len() as int) =~= self.members@);
        Ok(out)
    }

    fn get_member(&self, group_id: &str, user_email: &UserEmail) -> (r: Result<Option<GroupMember>, CoreError>) {
        match self.membership_position(group_id, user_email.as_str()) {
            Some(i) => {
                let m = self.members[i].duplicate();
                assert(self.members@[i as int] == m);
                Ok(Some(m))
            },
            None => Ok(None),
        }
    }

    fn get_user_groups(&self, user_email: &UserEmail) -> (r: Result<Vec<(LinkGroup, GroupRole)>, CoreError>) {
        let mut out: Vec<(LinkGroup, GroupRole)> = Vec::new();
        let mut i: usize = 0;
        while i < self.groups.len()
            invariant
                i <= self.groups@.len(),
                unique_ids(self.groups@),
                forall|k: int| 0 <= k < out@.len() ==> {
                    &&& groups_map(self.groups@).contains_key((#[trigger] out@[k]).0.id@)
                    &&& groups_map(self.groups@)[out@[k].0.id@] == out@[k].0
                    &&& if out@[k].0.created_by@ == user_email@ {
                        out@[k].1 == GroupRole::Admin
                    } else {
                        exists|j: int| 0 <= j < self.members@.len()
                            && is_membership(#[trigger] self.members@[j], out@[k].0.id@, user_email@)
                            && self.members@[j].role == out@[k].1
                    }
                },
            decreases self.groups@.len() - i,
        {
            let g = &self.groups[i];
            if str_eq(g.created_by.as_str(), user_email.as_str()) {
                proof {
                    lemma_groups_at(self.groups@, i as int);
                }
                out.push((g.duplicate(), GroupRole::Admin));
            }
            i += 1;
        }
        let mut j: usize = 0;
        while j < self.members.len()
            invariant
                j <= self.members@.len(),
                unique_ids(self.groups@),
                forall|k: int| 0 <= k < out@.len() ==> {
                    &&& groups_map(self.groups@).contains_key((#[trigger] out@[k]).0.id@)
                    &&& groups_map(self.groups@)[out@[k].0.id@] == out@[k].0
                    &&& if out@[k].0.created_by@ == user_email@ {
                        out@[k].1 == GroupRole::Admin
                    } else {
                        exists|j: int| 0 <= j < self.members@.len()
                            && is_membership(#[trigger] self.members@[j], out@[k].0.id@, user_email@)
                            && self.members@[j].role == out@[k].1
                    }
                },
            decreases self.members@.len() - j,
        {
            let m = &self.members[j];
            if str_eq(m.user_email.as_str(), user_email.as_str()) {
                if let Some(gi) = self.group_position(m.group_id.as_str()) {
                    let g = &self.groups[gi];
                    if !str_eq(g.created_by.as_str(), user_email.as_str()) {
                        let ghost before = out@;
                        out.push((g.duplicate(), m.role));
                        assert(is_membership(self.members@[j as int], out@[out@.len() - 1].0.id@, user_email@));
                        assert forall|k: int| 0 <= k < out@.len() implies {
                            &&& groups_map(self.groups@).contains_key((#[trigger] out@[k]).0.id@)
                            &&& groups_map(self.groups@)[out@[k].0.id@] == out@[k].0
                            &&& if out@[k].0.created_by@ == user_email@ {
                                out@[k].1 == GroupRole::Admin
                            } else {
                                exists|j: int| 0 <= j < self.members@.len()
                                    && is_membership(#[trigger] self.members@[j], out@[k].0.id@, user_email@)
                                    && self.members@[j].role == out@[k].1
                            }
                        } by {
                            if k < before.len() {
                                assert(out@[k] == before[k]);
                            }
                        }
                    }
                }
            }
            j += 1;
        }
        assert forall|k: int| 0 <= k < out@.len() implies {
            &&& self.groups().contains_key((#[trigger] out@[k]).0.id@)
            &&& self.groups()[out@[k].0.id@] == out@[k].0
            &&& if out@[k].0.created_by@ == user_email@ {
                out@[k].1 == GroupRole::Admin
            } else {
                exists|j: int| 0 <= j < self.members().len()
                    && is_membership(#[trigger] self.members()[j], out@[k].0.id@, user_email@)
                    && self.members()[j].role == out@[k].1
            }
        } by {
            if out@[k].0.created_by@ != user_email@ {
                let j = choose|j: int| 0 <= j < self.members@.len()
                    && is_membership(#[trigger] self.members@[j], out@[k].0.id@, user_email@)
                    && self.members@[j].role == out@[k].1;
                assert(self.members()[j] == self.members@[j]);
            }
        }
        Ok(out)
    }
}

} // verus!
