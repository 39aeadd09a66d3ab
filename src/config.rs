//! Configuration values: provider and format names, boolean flags, and the
//! consistency check of the authentication settings.

use vstd::prelude::*;
use crate::text::{ascii_eq_ic, eq_ignore_ascii_case, lower_of, lowercase, owned, str_eq};

verus! {

/// How callers are authenticated.
#[derive(Debug, Clone, Copy, PartialEq, Eq)]
pub enum AuthProvider {
    /// Trusts a debug header; for development only.
    DebugHeader,
    /// Verifies identity tokens.
    Google,
}

impl AuthProvider {
    /// `Google` for "google" in any ASCII case, else `None`.
    pub fn from_str(s: &str) -> (r: AuthProvider)
        ensures
            r == (if ascii_eq_ic(s@, "google"@) { AuthProvider::Google } else { AuthProvider::DebugHeader }),
    {
        if eq_ignore_ascii_case(s, "google") {
            AuthProvider::Google
        } else {
            AuthProvider::DebugHeader
        }
    }
}

/// Where links are stored.
#[derive(Debug, Clone, Copy, PartialEq, Eq)]
pub enum StorageProvider {
    Memory,
    Sqlite,
}

impl StorageProvider {
    /// `Sqlite` for "sqlite" in any ASCII case, else `Memory`.
    pub fn from_str(s: &str) -> (r: StorageProvider)
        ensures
            r == (if ascii_eq_ic(s@, "sqlite"@) { StorageProvider::Sqlite } else { StorageProvider::Memory }),
    {
        if eq_ignore_ascii_case(s, "sqlite") {
            StorageProvider::Sqlite
        } else {
            StorageProvider::Memory
        }
    }
}

/// Log output format.
#[derive(Debug, Clone, Copy, PartialEq, Eq)]
pub enum LogFormat {
    Pretty,
    Json,
}

impl LogFormat {
    /// `Json` for "json" in any ASCII case, else `Pretty`.
    pub fn from_str(s: &str) -> (r: LogFormat)
        ensures
            r == (if ascii_eq_ic(s@, "json"@) { LogFormat::Json } else { LogFormat::Pretty }),
    {
        if eq_ignore_ascii_case(s, "json") {
            LogFormat::Json
        } else {
            LogFormat::Pretty
        }
    }
}

/// A setting that is missing or invalid.
#[derive(Debug)]
pub struct ConfigError {
    pub field: &'static str,
    pub message: String,
}

impl ConfigError {
    /// Description naming the setting and the problem.
    pub fn describe(&self) -> (r: String)
        ensures
            r@ == "Configuration error for "@ + self.field@ + ": "@ + self.message@,
    {
        owned("Configuration error for ").concat(self.field).concat(": ").concat(self.message.as_str())
    }
}

/// Whether `s` equals one of `any` up to ASCII case.
pub fn matches_ignore_case(s: &str, any: &[&str]) -> (r: bool)
    ensures
        r == (exists|i: int| 0 <= i < any@.len() && ascii_eq_ic(s@, (#[trigger] any@[i])@)),
{
    let mut i: usize = 0;
    while i < any.len()
        invariant
            i <= any@.len(),
            forall|j: int| 0 <= j < i ==> !ascii_eq_ic(s@, (#[trigger] any@[j])@),
        decreases any@.len() - i,
    {
        if eq_ignore_ascii_case(s, any[i]) {
            assert(ascii_eq_ic(s@, any@[i as int]@));
            return true;
        }
        i += 1;
    }
    false
}

/// A flag value that switches a feature on: "1", "true", "yes" or "on", in any ASCII case.
pub open spec fn truthy(v: Seq<char>) -> bool {
    ascii_eq_ic(v, "1"@) || ascii_eq_ic(v, "true"@) || ascii_eq_ic(v, "yes"@) || ascii_eq_ic(v, "on"@)
}

/// Whether a flag, set to `value` or unset, is on.
pub fn is_truthy(value: Option<&str>) -> (r: bool)
    ensures
        r == match value {
            Some(v) => truthy(v@),
            None => false,
        },
{
    match value {
        Some(v) => {
            let names: [&str; 4] = ["1", "true", "yes", "on"];
            let r = matches_ignore_case(v, &names);
            assert(names@ == seq!["1", "true", "yes", "on"]);
            assert(truthy(v@) ==> ascii_eq_ic(v@, names@[0]@) || ascii_eq_ic(v@, names@[1]@)
                || ascii_eq_ic(v@, names@[2]@) || ascii_eq_ic(v@, names@[3]@));
            r
        },
        None => false,
    }
}

/// The signature-bypass setting is on: its lower-case form is "1", "true" or "yes".
pub open spec fn bypass_named(lowered: Seq<char>) -> bool {
    lowered == "1"@ || lowered == "true"@ || lowered == "yes"@
}

/// Whether an already lower-cased bypass setting is on.
pub fn bypass_from_lowercase(lowered: &str) -> (r: bool)
    ensures
        r == bypass_named(lowered@),
{
    str_eq(lowered, "1") || str_eq(lowered, "true") || str_eq(lowered, "yes")
}

/// Whether the signature-bypass setting `value` is on, in any letter case.
pub fn bypass_setting(value: &str) -> (r: bool)
    ensures
        r == bypass_named(lower_of(value@)),
{
    let l = lowercase(value);
    bypass_from_lowercase(l.as_str())
}

/// Token verification needs both an allowed domain and a client id.
pub fn check_auth_settings(provider: AuthProvider, allowed_domain: &Option<String>, client_id: &Option<String>) -> (r: Result<(), ConfigError>)
    ensures
        match r {
            Ok(()) => provider == AuthProvider::DebugHeader || (allowed_domain is Some && client_id is Some),
            Err(e) => provider == AuthProvider::Google && (if allowed_domain is None {
                e.field@ == "ALLOWED_DOMAIN"@
            } else {
                client_id is None && e.field@ == "GOOGLE_OAUTH_CLIENT_ID"@
            }),
        },
{
    match provider {
        AuthProvider::Google => {
            if allowed_domain.is_none() {
                return Err(ConfigError {
                    field: "ALLOWED_DOMAIN",
                    message: owned("Required when AUTH_PROVIDER=google"),
                });
            }
            if client_id.is_none() {
                return Err(ConfigError {
                    field: "GOOGLE_OAUTH_CLIENT_ID",
                    message: owned("Required when AUTH_PROVIDER=google"),
                });
            }
            Ok(())
        },
        AuthProvider::DebugHeader => Ok(()),
    }
}

} // verus!
