//! The delegation-switch workflow: moving a zone between operator-managed
//! nameservers and user-supplied external ones. The core validates the
//! request and produces the DNS write and the store update; the surrounding
//! application performs them in that order.

use vstd::prelude::*;
use crate::config::{AppConfig, spec_user_zone_name, spec_parent_zone_name};
use crate::error::{AppError, AppErrorV};
use crate::powerdns::{PdnsRecord, PdnsRecordV, PdnsRrset, PdnsRrsetV};
use crate::validation::{spec_validate_fqdn, spec_validation_message, validate_fqdn_ascii};

verus! {

/// The parent-zone NS TTL used for delegations.
pub const NS_TTL: u32 = 300;

/// A replace-RRset of NS records for `name`, targets in list order.
pub open spec fn spec_ns_rrset(name: Seq<char>, targets: Seq<Seq<char>>) -> PdnsRrsetV {
    PdnsRrsetV {
        name: name,
        rrtype: "NS"@,
        ttl: NS_TTL,
        changetype: Some("REPLACE"@),
        records: Seq::new(
            targets.len(),
            |i: int| PdnsRecordV { content: targets[i], disabled: false },
        ),
        comments: Seq::empty(),
    }
}

/// Build a replace-RRset of NS records for `name` from the given targets.
pub fn build_ns_rrset(name: &str, targets: &Vec<String>) -> (r: PdnsRrset)
    ensures
        r.deep_view() == spec_ns_rrset(name@, targets.deep_view()),
{
    let mut records: Vec<PdnsRecord> = Vec::new();
    let n = targets.len();
    let mut i: usize = 0;
    while i < n
        invariant
            n == targets.len(),
            i <= n,
            records.deep_view().len() == i,
            forall|j: int|
                0 <= j < i ==> #[trigger] records.deep_view()[j] == (PdnsRecordV {
                    content: targets.deep_view()[j],
                    disabled: false,
                }),
        decreases n - i,
    {
        let ghost prev = records;
        records.push(PdnsRecord { content: targets[i].clone(), disabled: false });
        proof {
            assert forall|j: int|
                0 <= j <= i implies #[trigger] records.deep_view()[j] == (PdnsRecordV {
                content: targets.deep_view()[j],
                disabled: false,
            }) by {
                if j < i {
                    assert(records@[j] == prev@[j]);
                    assert(prev.deep_view()[j] == (PdnsRecordV {
                        content: targets.deep_view()[j],
                        disabled: false,
                    }));
                }
            }
        }
        i = i + 1;
    }
    let r = PdnsRrset {
        name: String::from_str(name),
        rrtype: String::from_str("NS"),
        ttl: NS_TTL,
        changetype: Some(String::from_str("REPLACE")),
        records: records,
        comments: Vec::new(),
    };
    proof {
        assert(r.deep_view() =~~= spec_ns_rrset(name@, targets.deep_view()));
    }
    r
}

/// The NS mode and external-NS slots to persist for a user.
#[derive(Debug)]
pub struct ExternalNsUpdate {
    pub external_ns: bool,
    pub ns1: Option<String>,
    pub ns2: Option<String>,
    pub ns3: Option<String>,
    pub ns4: Option<String>,
    pub ns5: Option<String>,
    pub ns6: Option<String>,
}

/// Spec-level view of a persisted NS update.
#[verifier::ext_equal]
pub struct ExternalNsUpdateV {
    pub external_ns: bool,
    pub ns1: Option<Seq<char>>,
    pub ns2: Option<Seq<char>>,
    pub ns3: Option<Seq<char>>,
    pub ns4: Option<Seq<char>>,
    pub ns5: Option<Seq<char>>,
    pub ns6: Option<Seq<char>>,
}

impl DeepView for ExternalNsUpdate {
    type V = ExternalNsUpdateV;

    open spec fn deep_view(&self) -> ExternalNsUpdateV {
        ExternalNsUpdateV {
            external_ns: self.external_ns,
            ns1: self.ns1.deep_view(),
            ns2: self.ns2.deep_view(),
            ns3: self.ns3.deep_view(),
            ns4: self.ns4.deep_view(),
            ns5: self.ns5.deep_view(),
            ns6: self.ns6.deep_view(),
        }
    }
}

/// The slot content for position `i` of an NS list: the entry if present.
pub open spec fn spec_slot(ns: Seq<Seq<char>>, i: int) -> Option<Seq<char>> {
    if 0 <= i < ns.len() {
        Some(ns[i])
    } else {
        None
    }
}

/// The cleared update persisted when switching back to operator NS.
pub open spec fn spec_cleared_update() -> ExternalNsUpdateV {
    ExternalNsUpdateV {
        external_ns: false,
        ns1: None,
        ns2: None,
        ns3: None,
        ns4: None,
        ns5: None,
        ns6: None,
    }
}

/// The update persisted when switching to external NS: mode set, the list
/// filling the slots in order, the rest empty.
pub open spec fn spec_external_update(ns: Seq<Seq<char>>) -> ExternalNsUpdateV {
    ExternalNsUpdateV {
        external_ns: true,
        ns1: spec_slot(ns, 0),
        ns2: spec_slot(ns, 1),
        ns3: spec_slot(ns, 2),
        ns4: spec_slot(ns, 3),
        ns5: spec_slot(ns, 4),
        ns6: spec_slot(ns, 5),
    }
}

/// A delegation switch, ready to execute: the parent-zone NS write, then the
/// store update.
#[derive(Debug)]
pub struct DelegationPlan {
    pub zone_name: String,
    pub parent_zone: String,
    pub rrset: PdnsRrset,
    pub update: ExternalNsUpdate,
}

/// Validation of a user-supplied NS list: non-empty, at most six entries,
/// each a dot-terminated FQDN; the first offending entry decides the error.
pub open spec fn spec_check_ns_entries(ns: Seq<Seq<char>>) -> Result<(), AppErrorV>
    decreases ns.len(),
{
    if ns.len() == 0 {
        Ok(())
    } else if ns[0].len() == 0 || ns[0][ns[0].len() - 1] != '.' {
        Err(AppErrorV::BadRequest("nameservers must end with '.'"@))
    } else {
        match spec_validate_fqdn(ns[0]) {
            Err(e) => Err(AppErrorV::BadRequest(spec_validation_message(e))),
            Ok(u) => spec_check_ns_entries(ns.drop_first()),
        }
    }
}

/// The exact outcome of NS-list validation.
pub open spec fn spec_validate_ns_list(ns: Seq<Seq<char>>) -> Result<(), AppErrorV> {
    if ns.len() == 0 {
        Err(AppErrorV::BadRequest("at least one NS required"@))
    } else if ns.len() > 6 {
        Err(AppErrorV::BadRequest("up to six nameservers supported"@))
    } else {
        spec_check_ns_entries(ns)
    }
}

/// Switch the delegation back to the operator-managed nameservers: overwrite
/// the parent delegation with the configured internal NS and clear the
/// persisted external-NS fields.
pub fn switch_to_operator_plan(config: &AppConfig, label: &str) -> (r: DelegationPlan)
    ensures
        r.zone_name@ == spec_user_zone_name(config.deep_view(), label@),
        r.parent_zone@ == spec_parent_zone_name(config.deep_view()),
        r.rrset.deep_view() == spec_ns_rrset(
            spec_user_zone_name(config.deep_view(), label@),
            config.deep_view().internal_ns,
        ),
        r.update.deep_view() == spec_cleared_update(),
{
    let zone_name = config.user_zone_name(label);
    let parent_zone = config.parent_zone_name();
    let rrset = build_ns_rrset(zone_name.as_str(), &config.internal_ns);
    DelegationPlan {
        zone_name: zone_name,
        parent_zone: parent_zone,
        rrset: rrset,
        update: ExternalNsUpdate {
            external_ns: false,
            ns1: None,
            ns2: None,
            ns3: None,
            ns4: None,
            ns5: None,
            ns6: None,
        },
    }
}

/// Switch the delegation to user-supplied nameservers: validate the list,
/// overwrite the parent delegation with it, and persist it slot by slot.
pub fn switch_to_external_plan(config: &AppConfig, label: &str, ns: &Vec<String>) -> (r:
    Result<DelegationPlan, AppError>)
    ensures
        match r {
            Ok(p) => {
                &&& spec_validate_ns_list(ns.deep_view()) is Ok
                &&& p.zone_name@ == spec_user_zone_name(config.deep_view(), label@)
                &&& p.parent_zone@ == spec_parent_zone_name(config.deep_view())
                &&& p.rrset.deep_view() == spec_ns_rrset(
                    spec_user_zone_name(config.deep_view(), label@),
                    ns.deep_view(),
                )
                &&& p.update.deep_view() == spec_external_update(ns.deep_view())
            },
            Err(e) => spec_validate_ns_list(ns.deep_view()) == Err::<(), AppErrorV>(
                e.deep_view(),
            ),
        },
{
    let ghost nsv = ns.deep_view();
    if ns.len() == 0 {
        return Err(AppError::bad_request("at least one NS required"));
    }
    if ns.len() > 6 {
        return Err(AppError::bad_request("up to six nameservers supported"));
    }
    proof {
        assert(nsv.skip(0) =~= nsv);
    }
    let n = ns.len();
    let mut i: usize = 0;
    while i < n
        invariant
            nsv == ns.deep_view(),
            n == ns.len(),
            1 <= n <= 6,
            i <= n,
            spec_check_ns_entries(nsv) == spec_check_ns_entries(nsv.skip(i as int)),
        decreases n - i,
    {
        proof {
            assert(nsv.skip(i as int)[0] == nsv[i as int]);
            assert(nsv.skip(i as int).drop_first() =~= nsv.skip(i + 1));
        }
        let entry = &ns[i];
        let en = entry.as_str().unicode_len();
        if en == 0 || entry.as_str().get_char(en - 1) != '.' {
            return Err(AppError::bad_request("nameservers must end with '.'"));
        }
        match validate_fqdn_ascii(entry.as_str()) {
            Err(e) => {
                return Err(AppError::BadRequest(e.message()));
            },
            Ok(u) => {},
        }
        i = i + 1;
    }
    proof {
        assert(nsv.skip(n as int) =~= Seq::<Seq<char>>::empty());
    }
    let zone_name = config.user_zone_name(label);
    let parent_zone = config.parent_zone_name();
    let rrset = build_ns_rrset(zone_name.as_str(), ns);
    let ns1 = if ns.len() > 0 { Some(ns[0].clone()) } else { None };
    let ns2 = if ns.len() > 1 { Some(ns[1].clone()) } else { None };
    let ns3 = if ns.len() > 2 { Some(ns[2].clone()) } else { None };
    let ns4 = if ns.len() > 3 { Some(ns[3].clone()) } else { None };
    let ns5 = if ns.len() > 4 { Some(ns[4].clone()) } else { None };
    let ns6 = if ns.len() > 5 { Some(ns[5].clone()) } else { None };
    let update = ExternalNsUpdate {
        external_ns: true,
        ns1: ns1,
        ns2: ns2,
        ns3: ns3,
        ns4: ns4,
        ns5: ns5,
        ns6: ns6,
    };
    proof {
        assert(update.deep_view() =~~= spec_external_update(nsv));
    }
    Ok(
        DelegationPlan {
            zone_name: zone_name,
            parent_zone: parent_zone,
            rrset: rrset,
            update: update,
        },
    )
}

} // verus!
