//! Static service configuration: the base domain, the operator nameservers,
//! and the reserved-label list, with the naming helpers built on them.

use vstd::prelude::*;
use crate::error::{AppError, AppErrorV};
use crate::text::{lower_seq, trim_dots, trim_spaces, eq_ignore_ascii_case, trim, trim_end_dots};

verus! {

/// Spec-level view of the configuration.
pub struct AppConfigV {
    pub base_domain: Seq<char>,
    pub internal_ns: Seq<Seq<char>>,
    pub internal_main_ns: Seq<char>,
    pub internal_contact: Seq<char>,
    pub disallowed_subdomains: Seq<Seq<char>>,
}

/// Strongly-typed representation of server configuration.
#[derive(Clone, Debug)]
pub struct AppConfig {
    pub base_domain: String,
    pub internal_ns: Vec<String>,
    pub internal_main_ns: String,
    pub internal_contact: String,
    pub disallowed_subdomains: Vec<String>,
}

impl DeepView for AppConfig {
    type V = AppConfigV;

    open spec fn deep_view(&self) -> AppConfigV {
        AppConfigV {
            base_domain: self.base_domain@,
            internal_ns: self.internal_ns.deep_view(),
            internal_main_ns: self.internal_main_ns@,
            internal_contact: self.internal_contact@,
            disallowed_subdomains: self.disallowed_subdomains.deep_view(),
        }
    }
}

/// The canonical base domain: the configured one without trailing dots.
pub open spec fn spec_base_domain_root(c: AppConfigV) -> Seq<char> {
    trim_dots(c.base_domain)
}

/// The fully-qualified parent zone name.
pub open spec fn spec_parent_zone_name(c: AppConfigV) -> Seq<char> {
    spec_base_domain_root(c) + "."@
}

/// The fully-qualified user zone name for a label.
pub open spec fn spec_user_zone_name(c: AppConfigV, label: Seq<char>) -> Seq<char> {
    label + "."@ + spec_base_domain_root(c) + "."@
}

/// The baked-in reserved-label list: common service labels plus special-use
/// names that may never be claimed.
pub open spec fn spec_default_disallowed() -> Seq<Seq<char>> {
    seq![
        "www"@,
        "mail"@,
        "email"@,
        "ftp"@,
        "smtp"@,
        "imap"@,
        "pop"@,
        "pop3"@,
        "mx"@,
        "ns"@,
        "autodiscover"@,
        "autoconfig"@,
        "example"@,
        "invalid"@,
        "localhost"@,
        "test"@,
    ]
}

/// The list actually consulted: the custom list, or the default when none was
/// supplied.
pub open spec fn spec_effective_disallowed(c: AppConfigV) -> Seq<Seq<char>> {
    if c.disallowed_subdomains.len() == 0 {
        spec_default_disallowed()
    } else {
        c.disallowed_subdomains
    }
}

/// Whether a label is reserved, compared case-insensitively.
pub open spec fn spec_is_disallowed(c: AppConfigV, label: Seq<char>) -> bool {
    exists|i: int|
        0 <= i < spec_effective_disallowed(c).len() && lower_seq(
            #[trigger] spec_effective_disallowed(c)[i],
        ) == lower_seq(label)
}

/// An FQDN in canonical form: whitespace and trailing dots stripped, one
/// trailing dot appended; empty input has no canonical form.
pub open spec fn spec_normalize_fqdn(s: Seq<char>) -> Option<Seq<char>> {
    if trim_dots(trim_spaces(s)).len() == 0 {
        None
    } else {
        Some(trim_dots(trim_spaces(s)) + "."@)
    }
}

/// The default reserved-label list as owned strings.
pub fn default_disallowed_subdomains() -> (r: Vec<String>)
    ensures
        r.deep_view() == spec_default_disallowed(),
{
    let mut v: Vec<String> = Vec::new();
    v.push(String::from_str("www"));
    v.push(String::from_str("mail"));
    v.push(String::from_str("email"));
    v.push(String::from_str("ftp"));
    v.push(String::from_str("smtp"));
    v.push(String::from_str("imap"));
    v.push(String::from_str("pop"));
    v.push(String::from_str("pop3"));
    v.push(String::from_str("mx"));
    v.push(String::from_str("ns"));
    v.push(String::from_str("autodiscover"));
    v.push(String::from_str("autoconfig"));
    v.push(String::from_str("example"));
    v.push(String::from_str("invalid"));
    v.push(String::from_str("localhost"));
    v.push(String::from_str("test"));
    proof {
        assert(v.deep_view() =~= spec_default_disallowed());
    }
    v
}

impl AppConfig {
    /// Canonical base domain without trailing dots.
    pub fn base_domain_root(&self) -> (r: &str)
        ensures
            r@ == spec_base_domain_root(self.deep_view()),
    {
        trim_end_dots(self.base_domain.as_str())
    }

    /// Fully-qualified parent zone name.
    pub fn parent_zone_name(&self) -> (r: String)
        ensures
            r@ == spec_parent_zone_name(self.deep_view()),
    {
        let root = self.base_domain_root();
        String::from_str(root).concat(".")
    }

    /// Fully-qualified user zone name for the provided label.
    pub fn user_zone_name(&self, subdomain: &str) -> (r: String)
        ensures
            r@ == spec_user_zone_name(self.deep_view(), subdomain@),
    {
        let root = self.base_domain_root();
        String::from_str(subdomain).concat(".").concat(root).concat(".")
    }

    /// Check whether the user-provided label is on the reserved list.
    pub fn is_disallowed_subdomain(&self, label: &str) -> (r: bool)
        ensures
            r == spec_is_disallowed(self.deep_view(), label@),
    {
        let list = self.effective_disallowed_subdomains();
        let n = list.len();
        let mut i: usize = 0;
        while i < n
            invariant
                n == list.len(),
                list.deep_view() == spec_effective_disallowed(self.deep_view()),
                i <= n,
                forall|j: int|
                    0 <= j < i ==> lower_seq(#[trigger] list.deep_view()[j]) != lower_seq(
                        label@,
                    ),
            decreases n - i,
        {
            if eq_ignore_ascii_case(list[i].as_str(), label) {
                proof {
                    assert(lower_seq(spec_effective_disallowed(self.deep_view())[i as int])
                        == lower_seq(label@));
                }
                return true;
            }
            i = i + 1;
        }
        false
    }

    /// Return either the custom list or the baked-in default.
    pub fn effective_disallowed_subdomains(&self) -> (r: Vec<String>)
        ensures
            r.deep_view() == spec_effective_disallowed(self.deep_view()),
    {
        if self.disallowed_subdomains.len() == 0 {
            default_disallowed_subdomains()
        } else {
            let mut v: Vec<String> = Vec::new();
            let n = self.disallowed_subdomains.len();
            let mut i: usize = 0;
            while i < n
                invariant
                    n == self.disallowed_subdomains.len(),
                    i <= n,
                    v@.len() == i,
                    forall|j: int|
                        0 <= j < i ==> #[trigger] v.deep_view()[j]
                            == self.disallowed_subdomains.deep_view()[j],
                decreases n - i,
            {
                let s = self.disallowed_subdomains[i].clone();
                proof {
                    assert(s@ == self.disallowed_subdomains@[i as int]@);
                }
                let ghost prev = v;
                v.push(s);
                proof {
                    assert forall|j: int|
                        0 <= j <= i implies #[trigger] v.deep_view()[j]
                        == self.disallowed_subdomains.deep_view()[j] by {
                        if j < i {
                            assert(v@[j] == prev@[j]);
                            assert(prev.deep_view()[j]
                                == self.disallowed_subdomains.deep_view()[j]);
                        } else {
                            assert(v@[j] == s);
                        }
                    }
                }
                i = i + 1;
            }
            proof {
                assert(v.deep_view() =~= self.disallowed_subdomains.deep_view());
            }
            v
        }
    }
}

/// The reserved-label list as configured: each entry trimmed and lowercased,
/// empty entries dropped, order kept.
pub open spec fn spec_cleaned_disallowed(ds: Seq<Seq<char>>) -> Seq<Seq<char>>
    decreases ds.len(),
{
    if ds.len() == 0 {
        Seq::empty()
    } else {
        (if lower_seq(trim_spaces(ds[0])).len() > 0 {
            seq![lower_seq(trim_spaces(ds[0]))]
        } else {
            Seq::empty()
        }) + spec_cleaned_disallowed(ds.drop_first())
    }
}

/// The contact FQDN source when none is configured: hostmaster under the
/// base domain.
pub open spec fn spec_default_contact(base_domain: Seq<char>) -> Seq<char> {
    "hostmaster."@ + trim_dots(base_domain)
}

/// Assemble the validated configuration from the raw startup values: every
/// nameserver canonicalized, the SOA primary defaulting to the first
/// nameserver, the contact defaulting to hostmaster under the base domain,
/// and the reserved-label list cleaned.
pub fn build_app_config(
    base_domain: &str,
    internal_ns: &Vec<String>,
    internal_main_ns: &Option<String>,
    internal_contact: &Option<String>,
    disallow_subdomain: &Vec<String>,
) -> (r: Result<AppConfig, AppError>)
    ensures
        match r {
            Ok(cfg) => {
                &&& internal_ns.deep_view().len() > 0
                &&& cfg.base_domain@ == trim_dots(base_domain@)
                &&& cfg.internal_ns.deep_view().len() == internal_ns.deep_view().len()
                &&& forall|i: int|
                    0 <= i < internal_ns.deep_view().len() ==> spec_normalize_fqdn(
                        internal_ns.deep_view()[i],
                    ) == Some(#[trigger] cfg.internal_ns.deep_view()[i])
                &&& match internal_main_ns.deep_view() {
                    Some(v) => spec_normalize_fqdn(v) == Some(cfg.internal_main_ns@),
                    None => cfg.internal_main_ns@ == cfg.internal_ns.deep_view()[0],
                }
                &&& match internal_contact.deep_view() {
                    Some(v) => spec_normalize_fqdn(v) == Some(cfg.internal_contact@),
                    None => spec_normalize_fqdn(spec_default_contact(base_domain@)) == Some(
                        cfg.internal_contact@,
                    ),
                }
                &&& cfg.disallowed_subdomains.deep_view() == spec_cleaned_disallowed(
                    disallow_subdomain.deep_view(),
                )
            },
            Err(e) => {
                ||| (internal_ns.deep_view().len() == 0 && e.deep_view()
                    == AppErrorV::BadRequest("at least one --internal-ns value is required"@))
                ||| (exists|j: int|
                    {
                        &&& 0 <= j < internal_ns.deep_view().len()
                        &&& spec_normalize_fqdn(#[trigger] internal_ns.deep_view()[j]) is None
                        &&& e.deep_view() == AppErrorV::BadRequest(
                            "invalid internal-ns value '"@ + internal_ns.deep_view()[j] + "'"@,
                        )
                    })
                ||| (match internal_main_ns.deep_view() {
                    Some(v) => spec_normalize_fqdn(v) is None && e.deep_view()
                        == AppErrorV::BadRequest("invalid internal-main-ns '"@ + v + "'"@),
                    None => false,
                })
                ||| (match internal_contact.deep_view() {
                    Some(v) => spec_normalize_fqdn(v) is None && e.deep_view()
                        == AppErrorV::BadRequest("invalid internal-contact '"@ + v + "'"@),
                    None => spec_normalize_fqdn(spec_default_contact(base_domain@)) is None
                        && e.deep_view() == AppErrorV::BadRequest(
                        "invalid internal-contact '"@ + spec_default_contact(base_domain@)
                            + "'"@,
                    ),
                })
            },
        },
{
    if internal_ns.len() == 0 {
        return Err(AppError::bad_request("at least one --internal-ns value is required"));
    }
    let mut ns_list: Vec<String> = Vec::new();
    let n = internal_ns.len();
    let mut i: usize = 0;
    while i < n
        invariant
            n == internal_ns.len(),
            i <= n,
            ns_list@.len() == i,
            forall|j: int|
                0 <= j < i ==> spec_normalize_fqdn(internal_ns.deep_view()[j]) == Some(
                    #[trigger] ns_list.deep_view()[j],
                ),
        decreases n - i,
    {
        match normalize_fqdn(internal_ns[i].as_str()) {
            Ok(f) => {
                let ghost prev = ns_list;
                ns_list.push(f);
                proof {
                    assert forall|j: int|
                        0 <= j <= i implies spec_normalize_fqdn(internal_ns.deep_view()[j])
                        == Some(#[trigger] ns_list.deep_view()[j]) by {
                        if j < i {
                            assert(ns_list@[j] == prev@[j]);
                            assert(spec_normalize_fqdn(internal_ns.deep_view()[j]) == Some(
                                prev.deep_view()[j],
                            ));
                        }
                    }
                }
            },
            Err(u) => {
                let msg = String::from_str("invalid internal-ns value '").concat(
                    internal_ns[i].as_str(),
                ).concat("'");
                proof {
                    assert(spec_normalize_fqdn(internal_ns.deep_view()[i as int]) is None);
                    assert(msg@ == "invalid internal-ns value '"@ + internal_ns.deep_view()[
                        i as int] + "'"@);
                }
                return Err(AppError::BadRequest(msg));
            },
        }
        i = i + 1;
    }
    let main_ns = match internal_main_ns {
        Some(v) => match normalize_fqdn(v.as_str()) {
            Ok(f) => f,
            Err(u) => {
                let msg = String::from_str("invalid internal-main-ns '").concat(
                    v.as_str(),
                ).concat("'");
                return Err(AppError::BadRequest(msg));
            },
        },
        None => ns_list[0].clone(),
    };
    let contact = match internal_contact {
        Some(v) => match normalize_fqdn(v.as_str()) {
            Ok(f) => f,
            Err(u) => {
                let msg = String::from_str("invalid internal-contact '").concat(
                    v.as_str(),
                ).concat("'");
                proof {
                    assert(internal_contact.deep_view() == Some(v@));
                }
                return Err(AppError::BadRequest(msg));
            },
        },
        None => {
            let source = String::from_str("hostmaster.").concat(trim_end_dots(base_domain));
            match normalize_fqdn(source.as_str()) {
                Ok(f) => f,
                Err(u) => {
                    let msg = String::from_str("invalid internal-contact '").concat(
                        source.as_str(),
                    ).concat("'");
                    return Err(AppError::BadRequest(msg));
                },
            }
        },
    };
    let mut cleaned: Vec<String> = Vec::new();
    let ghost dsv = disallow_subdomain.deep_view();
    proof {
        assert(dsv.skip(0) =~= dsv);
        assert(cleaned.deep_view() =~= Seq::<Seq<char>>::empty());
        assert(cleaned.deep_view() + spec_cleaned_disallowed(dsv) =~= spec_cleaned_disallowed(
            dsv,
        ));
    }
    let dn = disallow_subdomain.len();
    let mut k: usize = 0;
    while k < dn
        invariant
            dsv == disallow_subdomain.deep_view(),
            dn == disallow_subdomain.len(),
            k <= dn,
            spec_cleaned_disallowed(dsv) == cleaned.deep_view() + spec_cleaned_disallowed(
                dsv.skip(k as int),
            ),
        decreases dn - k,
    {
        proof {
            assert(dsv.skip(k as int)[0] == dsv[k as int]);
            assert(dsv.skip(k as int).drop_first() =~= dsv.skip(k + 1));
        }
        let ghost before = cleaned.deep_view();
        let t = crate::text::ascii_lower(trim(disallow_subdomain[k].as_str()));
        if t.as_str().unicode_len() > 0 {
            cleaned.push(t);
            proof {
                assert(cleaned.deep_view() =~= before.push(lower_seq(trim_spaces(
                    dsv[k as int],
                ))));
                assert(cleaned.deep_view() + spec_cleaned_disallowed(dsv.skip(k + 1))
                    =~= before + spec_cleaned_disallowed(dsv.skip(k as int)));
            }
        } else {
            proof {
                assert(spec_cleaned_disallowed(dsv.skip(k as int)) =~= Seq::<
                    Seq<char>,
                >::empty() + spec_cleaned_disallowed(dsv.skip(k + 1)));
                assert(Seq::<Seq<char>>::empty() + spec_cleaned_disallowed(dsv.skip(k + 1))
                    =~= spec_cleaned_disallowed(dsv.skip(k + 1)));
            }
        }
        k = k + 1;
    }
    proof {
        assert(dsv.skip(dn as int) =~= Seq::<Seq<char>>::empty());
        assert(cleaned.deep_view() + Seq::<Seq<char>>::empty() =~= cleaned.deep_view());
    }
    Ok(
        AppConfig {
            base_domain: String::from_str(trim_end_dots(base_domain)),
            internal_ns: ns_list,
            internal_main_ns: main_ns,
            internal_contact: contact,
            disallowed_subdomains: cleaned,
        },
    )
}

/// Canonicalize an FQDN: trim whitespace and trailing dots, require a
/// non-empty remainder, and append the trailing dot.
pub fn normalize_fqdn(input: &str) -> (r: Result<String, AppError>)
    ensures
        match r {
            Ok(s) => spec_normalize_fqdn(input@) == Some(s@),
            Err(e) => spec_normalize_fqdn(input@) is None && e.deep_view()
                == AppErrorV::BadRequest("FQDN cannot be empty"@),
        },
{
    let trimmed = trim_end_dots(trim(input));
    if trimmed.unicode_len() == 0 {
        return Err(AppError::bad_request("FQDN cannot be empty"));
    }
    Ok(String::from_str(trimmed).concat("."))
}

} // verus!
