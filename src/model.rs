//! Link-shortening domain: validated identifiers, stored links, groups, roles,
//! analytics and audit records, and the domain error.

use vstd::prelude::*;
use crate::text::{all_alias_chars, contains_char, is_alias_char, lower_of, lowercase, owned, str_eq};

verus! {

/// Domain failures.
#[derive(Debug)]
pub enum CoreError {
    InvalidUrl(String),
    InvalidSlug(String),
    InvalidUserEmail,
    AlreadyExists,
    NotFound,
    Repository(String),
}

impl CoreError {
    /// Human-readable description of the error.
    pub fn message(&self) -> (r: String)
        ensures
            r@ == match self {
                CoreError::InvalidUrl(m) => "invalid url: "@ + m@,
                CoreError::InvalidSlug(m) => "invalid slug: "@ + m@,
                CoreError::InvalidUserEmail => "invalid user email"@,
                CoreError::AlreadyExists => "resource already exists"@,
                CoreError::NotFound => "not found"@,
                CoreError::Repository(m) => "repository error: "@ + m@,
            },
    {
        match self {
            CoreError::InvalidUrl(m) => owned("invalid url: ").concat(m.as_str()),
            CoreError::InvalidSlug(m) => owned("invalid slug: ").concat(m.as_str()),
            CoreError::InvalidUserEmail => owned("invalid user email"),
            CoreError::AlreadyExists => owned("resource already exists"),
            CoreError::NotFound => owned("not found"),
            CoreError::Repository(m) => owned("repository error: ").concat(m.as_str()),
        }
    }
}

/// A non-empty string of ASCII letters, digits, `-` and `_`.
pub open spec fn valid_slug(s: Seq<char>) -> bool {
    s.len() > 0 && forall|i: int| 0 <= i < s.len() ==> is_alias_char(#[trigger] s[i])
}

/// A non-empty string that contains `@`.
pub open spec fn valid_email(s: Seq<char>) -> bool {
    s.len() > 0 && exists|i: int| 0 <= i < s.len() && s[i] == '@'
}

/// A URL-safe identifier of a short link.
#[derive(Clone, Debug, PartialEq, Eq, PartialOrd, Ord, Hash)]
pub struct Slug(String);

impl Slug {
    pub closed spec fn view(&self) -> Seq<char> {
        self.0@
    }

    /// Accepts a non-empty string of ASCII letters, digits, `-` and `_`.
    pub fn new(s: &str) -> (r: Result<Slug, CoreError>)
        ensures
            match r {
                Ok(slug) => valid_slug(s@) && slug@ == s@,
                Err(CoreError::InvalidSlug(m)) => !valid_slug(s@) && (if s@.len() == 0 {
                    m@ == "empty"@
                } else {
                    m@ == "invalid characters"@
                }),
                Err(_) => false,
            },
    {
        if s.unicode_len() == 0 {
            return Err(CoreError::InvalidSlug(owned("empty")));
        }
        if !all_alias_chars(s) {
            return Err(CoreError::InvalidSlug(owned("invalid characters")));
        }
        Ok(Slug(owned(s)))
    }

    /// Wraps text already known to be a valid slug.
    pub(crate) fn from_valid(s: String) -> (r: Slug)
        requires
            valid_slug(s@),
        ensures
            r@ == s@,
    {
        Slug(s)
    }

    pub fn as_str(&self) -> (r: &str)
        ensures
            r@ == self@,
    {
        self.0.as_str()
    }

    pub fn duplicate(&self) -> (r: Slug)
        ensures
            r == *self,
    {
        Slug(self.0.clone())
    }
}

/// Email address of a user.
#[derive(Clone, Debug, PartialEq, Eq, PartialOrd, Ord, Hash)]
pub struct UserEmail(String);

impl UserEmail {
    pub closed spec fn view(&self) -> Seq<char> {
        self.0@
    }

    /// Accepts a non-empty string that contains `@`.
    pub fn new(s: &str) -> (r: Result<UserEmail, CoreError>)
        ensures
            match r {
                Ok(e) => valid_email(s@) && e@ == s@,
                Err(CoreError::InvalidUserEmail) => !valid_email(s@),
                Err(_) => false,
            },
    {
        if s.unicode_len() == 0 || !contains_char(s, '@') {
            return Err(CoreError::InvalidUserEmail);
        }
        Ok(UserEmail(owned(s)))
    }

    pub fn as_str(&self) -> (r: &str)
        ensures
            r@ == self@,
    {
        self.0.as_str()
    }

    pub fn duplicate(&self) -> (r: UserEmail)
        ensures
            r == *self,
    {
        UserEmail(self.0.clone())
    }
}

/// Input for creating a short link.
#[derive(Clone, Debug)]
pub struct NewLink {
    pub original_url: String,
    pub custom_slug: Option<Slug>,
    pub user_email: UserEmail,
}

/// A stored short link. Times are seconds since the Unix epoch.
#[derive(Clone, Debug)]
pub struct ShortLink {
    pub slug: Slug,
    pub original_url: String,
    pub created_at: u64,
    pub created_by: UserEmail,
    /// Number of redirects served.
    pub click_count: u64,
    /// Inactive links are not served.
    pub is_active: bool,
    pub updated_at: Option<u64>,
    /// Links are gone from this time on.
    pub expires_at: Option<u64>,
    pub description: Option<String>,
    /// Links are not served before this time.
    pub activate_at: Option<u64>,
    /// Seconds of countdown before redirecting; `None` redirects at once.
    pub redirect_delay: Option<u32>,
    /// Set when the link is soft-deleted.
    pub deleted_at: Option<u64>,
    pub group_id: Option<String>,
}

pub fn copy_text(o: &Option<String>) -> (r: Option<String>)
    ensures
        r == *o,
{
    match o {
        Some(s) => Some(s.clone()),
        None => None,
    }
}

pub open spec fn expired_at(l: ShortLink, now: u64) -> bool {
    l.expires_at is Some && now >= l.expires_at->0
}

pub open spec fn scheduled_at(l: ShortLink, now: u64) -> bool {
    l.activate_at is Some && now < l.activate_at->0
}

impl ShortLink {
    /// A fresh link: no clicks, active, and every optional field empty.
    pub fn new(slug: Slug, original_url: String, created_at: u64, created_by: UserEmail) -> (r: ShortLink)
        ensures
            r.slug == slug,
            r.original_url == original_url,
            r.created_at == created_at,
            r.created_by == created_by,
            r.click_count == 0,
            r.is_active,
            r.updated_at is None,
            r.expires_at is None,
            r.description is None,
            r.activate_at is None,
            r.redirect_delay is None,
            r.deleted_at is None,
            r.group_id is None,
    {
        ShortLink {
            slug,
            original_url,
            created_at,
            created_by,
            click_count: 0,
            is_active: true,
            updated_at: None,
            expires_at: None,
            description: None,
            activate_at: None,
            redirect_delay: None,
            deleted_at: None,
            group_id: None,
        }
    }

    /// A field-by-field copy.
    pub fn duplicate(&self) -> (r: ShortLink)
        ensures
            r == *self,
    {
        ShortLink {
            slug: self.slug.duplicate(),
            original_url: self.original_url.clone(),
            created_at: self.created_at,
            created_by: self.created_by.duplicate(),
            click_count: self.click_count,
            is_active: self.is_active,
            updated_at: self.updated_at,
            expires_at: self.expires_at,
            description: copy_text(&self.description),
            activate_at: self.activate_at,
            redirect_delay: self.redirect_delay,
            deleted_at: self.deleted_at,
            group_id: copy_text(&self.group_id),
        }
    }

    pub fn is_expired(&self, now: u64) -> (r: bool)
        ensures
            r == expired_at(*self, now),
    {
        match self.expires_at {
            Some(exp) => now >= exp,
            None => false,
        }
    }

    pub fn is_scheduled(&self, now: u64) -> (r: bool)
        ensures
            r == scheduled_at(*self, now),
    {
        match self.activate_at {
            Some(act) => now < act,
            None => false,
        }
    }

    pub fn is_deleted(&self) -> (r: bool)
        ensures
            r == self.deleted_at is Some,
    {
        self.deleted_at.is_some()
    }

    /// Active, not expired, not scheduled for later, and not deleted.
    pub fn is_available(&self, now: u64) -> (r: bool)
        ensures
            r == (self.is_active && !expired_at(*self, now) && !scheduled_at(*self, now)
                && self.deleted_at is None),
    {
        self.is_active && !self.is_expired(now) && !self.is_scheduled(now) && !self.is_deleted()
    }
}

/// A group of links shared between users.
#[derive(Clone, Debug)]
pub struct LinkGroup {
    pub id: String,
    pub name: String,
    pub description: Option<String>,
    pub created_at: u64,
    pub created_by: UserEmail,
}

impl LinkGroup {
    /// A field-by-field copy.
    pub fn duplicate(&self) -> (r: LinkGroup)
        ensures
            r == *self,
    {
        LinkGroup {
            id: self.id.clone(),
            name: self.name.clone(),
            description: copy_text(&self.description),
            created_at: self.created_at,
            created_by: self.created_by.duplicate(),
        }
    }
}

/// A member of a link group.
#[derive(Clone, Debug)]
pub struct GroupMember {
    pub group_id: String,
    pub user_email: UserEmail,
    pub role: GroupRole,
    pub added_at: u64,
    pub added_by: UserEmail,
}

impl GroupMember {
    /// A field-by-field copy.
    pub fn duplicate(&self) -> (r: GroupMember)
        ensures
            r == *self,
    {
        GroupMember {
            group_id: self.group_id.clone(),
            user_email: self.user_email.duplicate(),
            role: self.role,
            added_at: self.added_at,
            added_by: self.added_by.duplicate(),
        }
    }
}

/// Access level of a group member.
#[derive(Clone, Copy, Debug, PartialEq, Eq)]
pub enum GroupRole {
    Viewer,
    Editor,
    Admin,
}

pub open spec fn role_name(r: GroupRole) -> Seq<char> {
    match r {
        GroupRole::Viewer => "viewer"@,
        GroupRole::Editor => "editor"@,
        GroupRole::Admin => "admin"@,
    }
}

/// The role whose name is exactly `s`.
pub open spec fn role_named(s: Seq<char>) -> Option<GroupRole> {
    if s == "viewer"@ {
        Some(GroupRole::Viewer)
    } else if s == "editor"@ {
        Some(GroupRole::Editor)
    } else if s == "admin"@ {
        Some(GroupRole::Admin)
    } else {
        None
    }
}

impl GroupRole {
    pub fn as_str(&self) -> (r: &'static str)
        ensures
            r@ == role_name(*self),
    {
        match self {
            GroupRole::Viewer => "viewer",
            GroupRole::Editor => "editor",
            GroupRole::Admin => "admin",
        }
    }

    /// The role named exactly `s` (already lower-case).
    pub fn from_name(s: &str) -> (r: Option<GroupRole>)
        ensures
            r == role_named(s@),
    {
        if str_eq(s, "viewer") {
            Some(GroupRole::Viewer)
        } else if str_eq(s, "editor") {
            Some(GroupRole::Editor)
        } else if str_eq(s, "admin") {
            Some(GroupRole::Admin)
        } else {
            None
        }
    }

    /// The role named by `s` in any letter case.
    pub fn parse(s: &str) -> (r: Option<GroupRole>)
        ensures
            r == role_named(lower_of(s@)),
    {
        let l = lowercase(s);
        GroupRole::from_name(l.as_str())
    }

    pub fn can_edit(&self) -> (r: bool)
        ensures
            r == (*self == GroupRole::Editor || *self == GroupRole::Admin),
    {
        match self {
            GroupRole::Viewer => false,
            _ => true,
        }
    }

    pub fn can_manage(&self) -> (r: bool)
        ensures
            r == (*self == GroupRole::Admin),
    {
        match self {
            GroupRole::Admin => true,
            _ => false,
        }
    }
}

/// A click on a short link, for analytics.
#[derive(Clone, Debug)]
pub struct ClickEvent {
    pub slug: Slug,
    pub clicked_at: u64,
    pub user_agent: Option<String>,
    pub referrer: Option<String>,
    pub country: Option<String>,
}

impl ClickEvent {
    /// A field-by-field copy.
    pub fn duplicate(&self) -> (r: ClickEvent)
        ensures
            r == *self,
    {
        ClickEvent {
            slug: self.slug.duplicate(),
            clicked_at: self.clicked_at,
            user_agent: copy_text(&self.user_agent),
            referrer: copy_text(&self.referrer),
            country: copy_text(&self.country),
        }
    }
}

/// A record of a change, for the audit log.
#[derive(Clone, Debug)]
pub struct AuditEntry {
    pub id: String,
    pub timestamp: u64,
    pub actor_email: UserEmail,
    pub action: AuditAction,
    pub target_type: String,
    pub target_id: String,
    /// Description of the changes, as JSON text.
    pub changes: Option<String>,
}

impl AuditEntry {
    /// A field-by-field copy.
    pub fn duplicate(&self) -> (r: AuditEntry)
        ensures
            r == *self,
    {
        AuditEntry {
            id: self.id.clone(),
            timestamp: self.timestamp,
            actor_email: self.actor_email.duplicate(),
            action: self.action,
            target_type: self.target_type.clone(),
            target_id: self.target_id.clone(),
            changes: copy_text(&self.changes),
        }
    }
}

/// Kinds of audited change.
#[derive(Clone, Copy, Debug, PartialEq, Eq)]
pub enum AuditAction {
    Create,
    Update,
    Delete,
    Restore,
    Activate,
    Deactivate,
    AddMember,
    RemoveMember,
}

pub open spec fn action_name(a: AuditAction) -> Seq<char> {
    match a {
        AuditAction::Create => "create"@,
        AuditAction::Update => "update"@,
        AuditAction::Delete => "delete"@,
        AuditAction::Restore => "restore"@,
        AuditAction::Activate => "activate"@,
        AuditAction::Deactivate => "deactivate"@,
        AuditAction::AddMember => "add_member"@,
        AuditAction::RemoveMember => "remove_member"@,
    }
}

/// The action whose name is exactly `s`.
pub open spec fn action_named(s: Seq<char>) -> Option<AuditAction> {
    if s == "create"@ {
        Some(AuditAction::Create)
    } else if s == "update"@ {
        Some(AuditAction::Update)
    } else if s == "delete"@ {
        Some(AuditAction::Delete)
    } else if s == "restore"@ {
        Some(AuditAction::Restore)
    } else if s == "activate"@ {
        Some(AuditAction::Activate)
    } else if s == "deactivate"@ {
        Some(AuditAction::Deactivate)
    } else if s == "add_member"@ {
        Some(AuditAction::AddMember)
    } else if s == "remove_member"@ {
        Some(AuditAction::RemoveMember)
    } else {
        None
    }
}

impl AuditAction {
    pub fn as_str(&self) -> (r: &'static str)
        ensures
            r@ == action_name(*self),
    {
        match self {
            AuditAction::Create => "create",
            AuditAction::Update => "update",
            AuditAction::Delete => "delete",
            AuditAction::Restore => "restore",
            AuditAction::Activate => "activate",
            AuditAction::Deactivate => "deactivate",
            AuditAction::AddMember => "add_member",
            AuditAction::RemoveMember => "remove_member",
        }
    }

    /// The action named exactly `s` (already lower-case).
    pub fn from_name(s: &str) -> (r: Option<AuditAction>)
        ensures
            r == action_named(s@),
    {
        if str_eq(s, "create") {
            Some(AuditAction::Create)
        } else if str_eq(s, "update") {
            Some(AuditAction::Update)
        } else if str_eq(s, "delete") {
            Some(AuditAction::Delete)
        } else if str_eq(s, "restore") {
            Some(AuditAction::Restore)
        } else if str_eq(s, "activate") {
            Some(AuditAction::Activate)
        } else if str_eq(s, "deactivate") {
            Some(AuditAction::Deactivate)
        } else if str_eq(s, "add_member") {
            Some(AuditAction::AddMember)
        } else if str_eq(s, "remove_member") {
            Some(AuditAction::RemoveMember)
        } else {
            None
        }
    }

    /// The action named by `s` in any letter case.
    pub fn parse(s: &str) -> (r: Option<AuditAction>)
        ensures
            r == action_named(lower_of(s@)),
    {
        let l = lowercase(s);
        AuditAction::from_name(l.as_str())
    }
}

/// Source of the current time, in seconds since the Unix epoch.
pub trait Clock {
    fn now(&self) -> u64;
}

/// Maps a fresh numeric id to a slug.
pub trait SlugGenerator {
    /// The slug this generator gives id `id`.
    spec fn slug_of(&self, id: u64) -> Seq<char>;

    fn next_slug(&self, next_id: u64) -> (r: Slug)
        ensures
            r@ == self.slug_of(next_id);
}

/// Pagination and filters of a link listing.
#[derive(Clone, Debug, Default)]
pub struct ListOptions {
    pub limit: usize,
    pub offset: usize,
    pub created_by: Option<UserEmail>,
    pub group_id: Option<String>,
    pub search: Option<String>,
    pub include_deleted: bool,
}

/// One page of a listing.
#[derive(Clone, Debug)]
pub struct ListResult<T> {
    pub items: Vec<T>,
    pub total: usize,
    pub has_more: bool,
}

pub const PKG_NAME: &'static str = "shortlink";
pub const PKG_VERSION: &'static str = "0.1.0";

/// One line naming the library and its version.
pub fn about() -> (r: String)
    ensures
        r@ == PKG_NAME@ + " v"@ + PKG_VERSION@ + " - domain library loaded"@,
{
    owned(PKG_NAME).concat(" v").concat(PKG_VERSION).concat(" - domain library loaded")
}

} // verus!
