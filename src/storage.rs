//! Settings and value mappings shared by the persistent storage back ends.

use vstd::prelude::*;
use crate::model::{CoreError, GroupRole};
use crate::text::{owned, str_eq};

verus! {

/// Names of the tables that a table-based store uses.
#[derive(Clone, Debug)]
pub struct DynamoTables {
    pub shortlinks: String,
    pub counters: String,
    pub groups: String,
    pub group_members: String,
    pub clicks: String,
    pub audit: String,
}

impl DynamoTables {
    /// The given link and counter tables, with the default names of the others.
    pub fn new(shortlinks: &str, counters: &str) -> (r: DynamoTables)
        ensures
            r.shortlinks@ == shortlinks@,
            r.counters@ == counters@,
            r.groups@ == "Groups"@,
            r.group_members@ == "GroupMembers"@,
            r.clicks@ == "Clicks"@,
            r.audit@ == "AuditLog"@,
    {
        DynamoTables {
            shortlinks: owned(shortlinks),
            counters: owned(counters),
            groups: owned("Groups"),
            group_members: owned("GroupMembers"),
            clicks: owned("Clicks"),
            audit: owned("AuditLog"),
        }
    }
}

/// The role a stored role name stands for; unknown names read as `Viewer`.
pub fn str_to_role(s: &str) -> (r: GroupRole)
    ensures
        r == (if s@ == "admin"@ {
            GroupRole::Admin
        } else if s@ == "editor"@ {
            GroupRole::Editor
        } else {
            GroupRole::Viewer
        }),
{
    if str_eq(s, "admin") {
        GroupRole::Admin
    } else if str_eq(s, "editor") {
        GroupRole::Editor
    } else {
        GroupRole::Viewer
    }
}

/// A storage failure reported by the SQL store, with its description.
pub fn map_sqerr(description: &str) -> (r: CoreError)
    ensures
        r matches CoreError::Repository(m) && m@ == "sqlite error: "@ + description@,
{
    CoreError::Repository(owned("sqlite error: ").concat(description))
}

} // verus!
