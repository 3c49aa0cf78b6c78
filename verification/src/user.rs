//! The stored user row as the core sees it, and the projections built on it.
//! Timestamps are carried as Unix epoch seconds; the store adapter converts.

use vstd::prelude::*;
use crate::text::contains_seq;

verus! {

/// Spec-level view of a stored user.
#[verifier::ext_equal]
pub struct UserV {
    pub id: i64,
    pub subdomain: Seq<char>,
    pub password_hash: Seq<char>,
    pub external_ns: bool,
    pub external_ns1: Option<Seq<char>>,
    pub external_ns2: Option<Seq<char>>,
    pub external_ns3: Option<Seq<char>>,
    pub external_ns4: Option<Seq<char>>,
    pub external_ns5: Option<Seq<char>>,
    pub external_ns6: Option<Seq<char>>,
    pub created_at: i64,
    pub updated_at: i64,
    pub last_login_at: Option<i64>,
}

/// Application-level representation of a stored user.
#[derive(Debug, Clone)]
pub struct User {
    pub id: i64,
    pub subdomain: String,
    pub password_hash: String,
    pub external_ns: bool,
    pub external_ns1: Option<String>,
    pub external_ns2: Option<String>,
    pub external_ns3: Option<String>,
    pub external_ns4: Option<String>,
    pub external_ns5: Option<String>,
    pub external_ns6: Option<String>,
    pub created_at: i64,
    pub updated_at: i64,
    pub last_login_at: Option<i64>,
}

impl DeepView for User {
    type V = UserV;

    open spec fn deep_view(&self) -> UserV {
        UserV {
            id: self.id,
            subdomain: self.subdomain@,
            password_hash: self.password_hash@,
            external_ns: self.external_ns,
            external_ns1: self.external_ns1.deep_view(),
            external_ns2: self.external_ns2.deep_view(),
            external_ns3: self.external_ns3.deep_view(),
            external_ns4: self.external_ns4.deep_view(),
            external_ns5: self.external_ns5.deep_view(),
            external_ns6: self.external_ns6.deep_view(),
            created_at: self.created_at,
            updated_at: self.updated_at,
            last_login_at: self.last_login_at,
        }
    }
}

/// Profile information returned to signed-in users.
#[derive(Debug)]
pub struct ProfileDto {
    pub subdomain: String,
    pub external_ns: bool,
    pub external_ns1: Option<String>,
    pub external_ns2: Option<String>,
    pub external_ns3: Option<String>,
    pub external_ns4: Option<String>,
    pub external_ns5: Option<String>,
    pub external_ns6: Option<String>,
}

/// Spec-level view of a profile.
#[verifier::ext_equal]
pub struct ProfileDtoV {
    pub subdomain: Seq<char>,
    pub external_ns: bool,
    pub external_ns1: Option<Seq<char>>,
    pub external_ns2: Option<Seq<char>>,
    pub external_ns3: Option<Seq<char>>,
    pub external_ns4: Option<Seq<char>>,
    pub external_ns5: Option<Seq<char>>,
    pub external_ns6: Option<Seq<char>>,
}

impl DeepView for ProfileDto {
    type V = ProfileDtoV;

    open spec fn deep_view(&self) -> ProfileDtoV {
        ProfileDtoV {
            subdomain: self.subdomain@,
            external_ns: self.external_ns,
            external_ns1: self.external_ns1.deep_view(),
            external_ns2: self.external_ns2.deep_view(),
            external_ns3: self.external_ns3.deep_view(),
            external_ns4: self.external_ns4.deep_view(),
            external_ns5: self.external_ns5.deep_view(),
            external_ns6: self.external_ns6.deep_view(),
        }
    }
}

/// The profile a user sees: the subdomain and the NS delegation fields.
pub open spec fn spec_profile_for(u: UserV) -> ProfileDtoV {
    ProfileDtoV {
        subdomain: u.subdomain,
        external_ns: u.external_ns,
        external_ns1: u.external_ns1,
        external_ns2: u.external_ns2,
        external_ns3: u.external_ns3,
        external_ns4: u.external_ns4,
        external_ns5: u.external_ns5,
        external_ns6: u.external_ns6,
    }
}

/// Clone an optional string, preserving its view.
pub fn clone_opt_string(o: &Option<String>) -> (r: Option<String>)
    ensures
        r.deep_view() == o.deep_view(),
{
    match o {
        None => None,
        Some(s) => Some(s.clone()),
    }
}

/// Project the caller's profile metadata and NS configuration.
pub fn profile_for(user: &User) -> (r: ProfileDto)
    ensures
        r.deep_view() == spec_profile_for(user.deep_view()),
{
    ProfileDto {
        subdomain: user.subdomain.clone(),
        external_ns: user.external_ns,
        external_ns1: clone_opt_string(&user.external_ns1),
        external_ns2: clone_opt_string(&user.external_ns2),
        external_ns3: clone_opt_string(&user.external_ns3),
        external_ns4: clone_opt_string(&user.external_ns4),
        external_ns5: clone_opt_string(&user.external_ns5),
        external_ns6: clone_opt_string(&user.external_ns6),
    }
}

/// Whether a store error message reports a uniqueness violation: the store's
/// unique constraint on the label is the final arbiter of ownership.
pub fn is_unique_violation(message: &str) -> (r: bool)
    ensures
        r == contains_seq(message@, "UNIQUE"@),
{
    crate::text::str_contains(message, "UNIQUE")
}

} // verus!
