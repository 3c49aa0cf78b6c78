//! The subdomain provisioning saga: the pre-mutation checks, the prepared
//! write plan, and the step-by-step decision machine. The surrounding
//! application performs each emitted action against the DNS servers and the
//! store and feeds the result back; the machine decides what happens next,
//! including the best-effort compensation on failure.

use vstd::prelude::*;
use crate::config::{AppConfig, AppConfigV, spec_user_zone_name, spec_parent_zone_name,
    spec_is_disallowed};
use crate::delegation::{build_ns_rrset, spec_ns_rrset, NS_TTL};
use crate::dto::CheckSubdomainResponse;
use crate::error::{AppError, AppErrorV};
use crate::powerdns::{PdnsRecord, PdnsRecordV, PdnsRrset, PdnsRrsetV, PdnsZoneCreate,
    PdnsZoneCreateV};
use crate::text::{dec_seq, u32_to_dec, clone_string_vec};
use crate::validation::{spec_validate_label, spec_validation_message, validate_subdomain_name};
use crate::zone::{spec_dns_occupied, dns_label_occupied};

verus! {

/// The TTL of the user zone's apex SOA record.
pub const SOA_TTL: u32 = 3600;

/// A number rendered in decimal, left-padded to two digits.
pub open spec fn pad2_seq(n: u32) -> Seq<char> {
    if n < 10 {
        "0"@ + dec_seq(n as int)
    } else {
        dec_seq(n as int)
    }
}

/// Render a number left-padded to two digits.
fn pad2(n: u32) -> (r: String)
    ensures
        r@ == pad2_seq(n),
{
    if n < 10 {
        String::from_str("0").concat(u32_to_dec(n).as_str())
    } else {
        u32_to_dec(n)
    }
}

/// The zone serial minted for the given date: YYYYMMDD followed by "01".
pub open spec fn spec_soa_serial(year: u32, month: u32, day: u32) -> Seq<char> {
    dec_seq(year as int) + pad2_seq(month) + pad2_seq(day) + "01"@
}

/// Mint the zone serial for the given date.
fn soa_serial(year: u32, month: u32, day: u32) -> (r: String)
    ensures
        r@ == spec_soa_serial(year, month, day),
{
    u32_to_dec(year).concat(pad2(month).as_str()).concat(pad2(day).as_str()).concat("01")
}

/// The apex SOA content: primary NS, contact, a date-derived serial, and the
/// fixed refresh/retry/expire/minimum parameters.
pub open spec fn spec_soa_content(c: AppConfigV, year: u32, month: u32, day: u32) -> Seq<
    char,
> {
    c.internal_main_ns + " "@ + c.internal_contact + " "@ + spec_soa_serial(year, month, day)
        + " 7200 900 1209600 300"@
}

/// The authoritative SOA RRset written at a fresh user zone's apex.
pub open spec fn spec_apex_soa_rrset(
    c: AppConfigV,
    zone_name: Seq<char>,
    year: u32,
    month: u32,
    day: u32,
) -> PdnsRrsetV {
    PdnsRrsetV {
        name: zone_name,
        rrtype: "SOA"@,
        ttl: SOA_TTL,
        changetype: Some("REPLACE"@),
        records: seq![
            PdnsRecordV { content: spec_soa_content(c, year, month, day), disabled: false },
        ],
        comments: Seq::empty(),
    }
}

/// Build the canonical NS RRset for a user zone from the operator's
/// configured nameservers.
pub fn build_apex_ns_rrset(config: &AppConfig, zone_name: &str) -> (r: PdnsRrset)
    ensures
        r.deep_view() == spec_ns_rrset(zone_name@, config.deep_view().internal_ns),
{
    build_ns_rrset(zone_name, &config.internal_ns)
}

/// Build the authoritative SOA RRset for a user zone, with a serial minted
/// from the given date.
pub fn build_apex_soa_rrset(config: &AppConfig, zone_name: &str, year: u32, month: u32, day: u32)
    -> (r: PdnsRrset)
    ensures
        r.deep_view() == spec_apex_soa_rrset(config.deep_view(), zone_name@, year, month, day),
{
    let serial = soa_serial(year, month, day);
    let content = config.internal_main_ns.clone().concat(" ").concat(
        config.internal_contact.as_str(),
    ).concat(" ").concat(serial.as_str()).concat(" 7200 900 1209600 300");
    let mut records: Vec<PdnsRecord> = Vec::new();
    records.push(PdnsRecord { content: content, disabled: false });
    let r = PdnsRrset {
        name: String::from_str(zone_name),
        rrtype: String::from_str("SOA"),
        ttl: SOA_TTL,
        changetype: Some(String::from_str("REPLACE")),
        records: records,
        comments: Vec::new(),
    };
    proof {
        assert(r.deep_view() =~~= spec_apex_soa_rrset(
            config.deep_view(),
            zone_name@,
            year,
            month,
            day,
        ));
    }
    r
}

/// The delete-RRset that compensates a delegation write: same owner and
/// type, delete directive, no records.
pub open spec fn spec_delete_ns_rrset(zone_name: Seq<char>) -> PdnsRrsetV {
    PdnsRrsetV {
        name: zone_name,
        rrtype: "NS"@,
        ttl: NS_TTL,
        changetype: Some("DELETE"@),
        records: Seq::empty(),
        comments: Seq::empty(),
    }
}

/// Build the delete-RRset that removes a delegation from the parent zone.
pub fn build_delegation_delete_rrset(zone_name: &str) -> (r: PdnsRrset)
    ensures
        r.deep_view() == spec_delete_ns_rrset(zone_name@),
{
    let r = PdnsRrset {
        name: String::from_str(zone_name),
        rrtype: String::from_str("NS"),
        ttl: NS_TTL,
        changetype: Some(String::from_str("DELETE")),
        records: Vec::new(),
        comments: Vec::new(),
    };
    proof {
        assert(r.deep_view() =~~= spec_delete_ns_rrset(zone_name@));
    }
    r
}

/// The exact outcome of the pre-mutation checks, in their fixed order: label
/// syntax, reserved list, store ownership, DNS occupancy, and operator NS
/// availability. Nothing is written before all of them pass.
pub open spec fn spec_provision_precheck(
    c: AppConfigV,
    label: Seq<char>,
    store_exists: bool,
    parent_rrsets: Option<Seq<PdnsRrsetV>>,
) -> Result<(), AppErrorV> {
    match spec_validate_label(label) {
        Err(e) => Err(AppErrorV::BadRequest(spec_validation_message(e))),
        Ok(u) => {
            if spec_is_disallowed(c, label) {
                Err(AppErrorV::BadRequest("requested subdomain is reserved"@))
            } else if store_exists {
                Err(AppErrorV::Conflict("already exists"@))
            } else if spec_dns_occupied(parent_rrsets, spec_user_zone_name(c, label)) {
                Err(AppErrorV::Conflict("already exists"@))
            } else if c.internal_ns.len() == 0 {
                Err(AppErrorV::Internal("no internal nameservers configured"@))
            } else {
                Ok(())
            }
        },
    }
}

/// Run the pre-mutation checks for a provisioning request against the
/// store's answer and the fetched parent zone.
pub fn provision_precheck(
    config: &AppConfig,
    label: &str,
    store_exists: bool,
    parent_rrsets: &Option<Vec<PdnsRrset>>,
) -> (r: Result<(), AppError>)
    ensures
        match r {
            Ok(u) => spec_provision_precheck(
                config.deep_view(),
                label@,
                store_exists,
                parent_rrsets.deep_view(),
            ) is Ok,
            Err(e) => spec_provision_precheck(
                config.deep_view(),
                label@,
                store_exists,
                parent_rrsets.deep_view(),
            ) == Err::<(), AppErrorV>(e.deep_view()),
        },
{
    match validate_subdomain_name(label) {
        Err(e) => {
            return Err(AppError::BadRequest(e.message()));
        },
        Ok(u) => {},
    }
    if config.is_disallowed_subdomain(label) {
        return Err(AppError::bad_request("requested subdomain is reserved"));
    }
    if store_exists {
        return Err(AppError::conflict("already exists"));
    }
    let desired = config.user_zone_name(label);
    if dns_label_occupied(parent_rrsets, desired.as_str()) {
        return Err(AppError::conflict("already exists"));
    }
    if config.internal_ns.len() == 0 {
        return Err(AppError::internal("no internal nameservers configured"));
    }
    Ok(())
}

/// The exact outcome of an availability query: syntax and reservation are
/// rejected outright; otherwise the label is available when neither the
/// store nor the DNS has it.
pub open spec fn spec_check_subdomain(
    c: AppConfigV,
    label: Seq<char>,
    store_exists: bool,
    parent_rrsets: Option<Seq<PdnsRrsetV>>,
) -> Result<bool, AppErrorV> {
    match spec_validate_label(label) {
        Err(e) => Err(AppErrorV::BadRequest(spec_validation_message(e))),
        Ok(u) => {
            if spec_is_disallowed(c, label) {
                Err(AppErrorV::BadRequest("requested subdomain is reserved"@))
            } else {
                Ok(
                    !(store_exists || spec_dns_occupied(
                        parent_rrsets,
                        spec_user_zone_name(c, label),
                    )),
                )
            }
        },
    }
}

/// Answer whether a label may still be registered.
pub fn check_subdomain_availability(
    config: &AppConfig,
    name: &str,
    store_exists: bool,
    parent_rrsets: &Option<Vec<PdnsRrset>>,
) -> (r: Result<CheckSubdomainResponse, AppError>)
    ensures
        match r {
            Ok(resp) => spec_check_subdomain(
                config.deep_view(),
                name@,
                store_exists,
                parent_rrsets.deep_view(),
            ) == Ok::<bool, AppErrorV>(resp.available),
            Err(e) => spec_check_subdomain(
                config.deep_view(),
                name@,
                store_exists,
                parent_rrsets.deep_view(),
            ) == Err::<bool, AppErrorV>(e.deep_view()),
        },
{
    match validate_subdomain_name(name) {
        Err(e) => {
            return Err(AppError::BadRequest(e.message()));
        },
        Ok(u) => {},
    }
    if config.is_disallowed_subdomain(name) {
        return Err(AppError::bad_request("requested subdomain is reserved"));
    }
    let desired = config.user_zone_name(name);
    let dns_exists = dns_label_occupied(parent_rrsets, desired.as_str());
    Ok(CheckSubdomainResponse { available: !(store_exists || dns_exists) })
}

/// What a finished saga reports.
#[derive(Debug, Clone, Copy, PartialEq, Eq, Structural)]
pub enum SagaOutcome {
    /// The subdomain was provisioned and the user row committed.
    Success,
    /// A concurrent signup won the store's uniqueness race.
    Conflict,
    /// An upstream call failed; the DNS writes were compensated.
    Failed,
}

/// Where the saga stands: which call is in flight, or what it reports.
#[derive(Debug, Clone, Copy, PartialEq, Eq, Structural)]
pub enum SagaState {
    CreatingZone,
    WritingApex,
    WritingDelegation,
    InsertingUser,
    RemovingDelegation(SagaOutcome),
    RemovingZone(SagaOutcome),
    Done(SagaOutcome),
}

/// How the in-flight call ended, as the application reports it.
#[derive(Debug, Clone, Copy, PartialEq, Eq, Structural)]
pub enum SagaEvent {
    Succeeded,
    Failed,
    FailedUniqueViolation,
}

/// The call the application must perform for a state.
#[derive(Debug, Clone, Copy, PartialEq, Eq, Structural)]
pub enum SagaAction {
    /// Create the user zone on the sub server (the plan's `zone_create`).
    CreateZone,
    /// Write the apex NS and SOA RRsets to the user zone (`apex_rrsets`).
    PatchSubApex,
    /// Write the delegation NS RRset into the parent zone (`delegation_rrset`).
    PatchParentDelegation,
    /// Insert the user row (label and password hash) into the store.
    InsertUser,
    /// Compensation: delete the delegation from the parent (`delegation_delete`).
    DeleteParentDelegation,
    /// Compensation: delete the user zone from the sub server.
    DeleteSubZone,
    /// Nothing left to call: report the outcome.
    Report,
}

/// The action performed in each state.
pub open spec fn spec_saga_action(s: SagaState) -> SagaAction {
    match s {
        SagaState::CreatingZone => SagaAction::CreateZone,
        SagaState::WritingApex => SagaAction::PatchSubApex,
        SagaState::WritingDelegation => SagaAction::PatchParentDelegation,
        SagaState::InsertingUser => SagaAction::InsertUser,
        SagaState::RemovingDelegation(o) => SagaAction::DeleteParentDelegation,
        SagaState::RemovingZone(o) => SagaAction::DeleteSubZone,
        SagaState::Done(o) => SagaAction::Report,
    }
}

/// The transition the saga takes when its in-flight call ends: forward on
/// success, into ordered compensation on failure, with the store's
/// uniqueness violation reported as a conflict. Compensation results never
/// change the reported outcome.
pub open spec fn spec_saga_next(s: SagaState, e: SagaEvent) -> SagaState {
    match s {
        SagaState::CreatingZone => if e is Succeeded {
            SagaState::WritingApex
        } else {
            SagaState::Done(SagaOutcome::Failed)
        },
        SagaState::WritingApex => if e is Succeeded {
            SagaState::WritingDelegation
        } else {
            SagaState::RemovingDelegation(SagaOutcome::Failed)
        },
        SagaState::WritingDelegation => if e is Succeeded {
            SagaState::InsertingUser
        } else {
            SagaState::RemovingDelegation(SagaOutcome::Failed)
        },
        SagaState::InsertingUser => match e {
            SagaEvent::Succeeded => SagaState::Done(SagaOutcome::Success),
            SagaEvent::FailedUniqueViolation => SagaState::RemovingDelegation(
                SagaOutcome::Conflict,
            ),
            SagaEvent::Failed => SagaState::RemovingDelegation(SagaOutcome::Failed),
        },
        SagaState::RemovingDelegation(o) => SagaState::RemovingZone(o),
        SagaState::RemovingZone(o) => SagaState::Done(o),
        SagaState::Done(o) => SagaState::Done(o),
    }
}

/// The saga starts by creating the user zone.
pub fn saga_initial_state() -> (r: SagaState)
    ensures
        r == SagaState::CreatingZone,
{
    SagaState::CreatingZone
}

/// The call the application must perform next.
pub fn saga_action(s: &SagaState) -> (r: SagaAction)
    ensures
        r == spec_saga_action(*s),
{
    match s {
        SagaState::CreatingZone => SagaAction::CreateZone,
        SagaState::WritingApex => SagaAction::PatchSubApex,
        SagaState::WritingDelegation => SagaAction::PatchParentDelegation,
        SagaState::InsertingUser => SagaAction::InsertUser,
        SagaState::RemovingDelegation(o) => SagaAction::DeleteParentDelegation,
        SagaState::RemovingZone(o) => SagaAction::DeleteSubZone,
        SagaState::Done(o) => SagaAction::Report,
    }
}

/// Advance the saga after the application reports how the call ended.
pub fn saga_next(s: &SagaState, e: &SagaEvent) -> (r: SagaState)
    ensures
        r == spec_saga_next(*s, *e),
{
    match s {
        SagaState::CreatingZone => match e {
            SagaEvent::Succeeded => SagaState::WritingApex,
            _ => SagaState::Done(SagaOutcome::Failed),
        },
        SagaState::WritingApex => match e {
            SagaEvent::Succeeded => SagaState::WritingDelegation,
            _ => SagaState::RemovingDelegation(SagaOutcome::Failed),
        },
        SagaState::WritingDelegation => match e {
            SagaEvent::Succeeded => SagaState::InsertingUser,
            _ => SagaState::RemovingDelegation(SagaOutcome::Failed),
        },
        SagaState::InsertingUser => match e {
            SagaEvent::Succeeded => SagaState::Done(SagaOutcome::Success),
            SagaEvent::FailedUniqueViolation => SagaState::RemovingDelegation(
                SagaOutcome::Conflict,
            ),
            SagaEvent::Failed => SagaState::RemovingDelegation(SagaOutcome::Failed),
        },
        SagaState::RemovingDelegation(o) => SagaState::RemovingZone(*o),
        SagaState::RemovingZone(o) => SagaState::Done(*o),
        SagaState::Done(o) => SagaState::Done(*o),
    }
}

/// Spec-level view of a prepared provisioning plan.
#[verifier::ext_equal]
pub struct ProvisionPlanV {
    pub label: Seq<char>,
    pub zone_name: Seq<char>,
    pub parent_zone: Seq<char>,
    pub zone_create: PdnsZoneCreateV,
    pub apex_rrsets: Seq<PdnsRrsetV>,
    pub delegation_rrset: PdnsRrsetV,
    pub delegation_delete: PdnsRrsetV,
}

/// Everything the saga will write, prepared up front: the zone creation
/// payload, the apex NS and SOA RRsets, the parent delegation RRset, and the
/// delete-RRset its compensation uses.
#[derive(Debug)]
pub struct ProvisionPlan {
    pub label: String,
    pub zone_name: String,
    pub parent_zone: String,
    pub zone_create: PdnsZoneCreate,
    pub apex_rrsets: Vec<PdnsRrset>,
    pub delegation_rrset: PdnsRrset,
    pub delegation_delete: PdnsRrset,
}

impl DeepView for ProvisionPlan {
    type V = ProvisionPlanV;

    open spec fn deep_view(&self) -> ProvisionPlanV {
        ProvisionPlanV {
            label: self.label@,
            zone_name: self.zone_name@,
            parent_zone: self.parent_zone@,
            zone_create: self.zone_create.deep_view(),
            apex_rrsets: self.apex_rrsets.deep_view(),
            delegation_rrset: self.delegation_rrset.deep_view(),
            delegation_delete: self.delegation_delete.deep_view(),
        }
    }
}

/// The plan for provisioning `label`, as a function of the configuration and
/// the date the serial is minted from.
pub open spec fn spec_build_plan(
    c: AppConfigV,
    label: Seq<char>,
    year: u32,
    month: u32,
    day: u32,
) -> ProvisionPlanV {
    let zone = spec_user_zone_name(c, label);
    ProvisionPlanV {
        label: label,
        zone_name: zone,
        parent_zone: spec_parent_zone_name(c),
        zone_create: PdnsZoneCreateV { name: zone, kind: "Native"@, nameservers: c.internal_ns },
        apex_rrsets: seq![
            spec_ns_rrset(zone, c.internal_ns),
            spec_apex_soa_rrset(c, zone, year, month, day),
        ],
        delegation_rrset: spec_ns_rrset(zone, c.internal_ns),
        delegation_delete: spec_delete_ns_rrset(zone),
    }
}

/// Prepare the full write plan for provisioning `label`.
pub fn build_provision_plan(config: &AppConfig, label: &str, year: u32, month: u32, day: u32)
    -> (r: ProvisionPlan)
    ensures
        r.deep_view() == spec_build_plan(config.deep_view(), label@, year, month, day),
{
    let zone_name = config.user_zone_name(label);
    let parent_zone = config.parent_zone_name();
    let zone_create = PdnsZoneCreate {
        name: zone_name.clone(),
        kind: String::from_str("Native"),
        nameservers: clone_string_vec(&config.internal_ns),
    };
    let mut apex_rrsets: Vec<PdnsRrset> = Vec::new();
    apex_rrsets.push(build_apex_ns_rrset(config, zone_name.as_str()));
    apex_rrsets.push(build_apex_soa_rrset(config, zone_name.as_str(), year, month, day));
    let delegation_rrset = build_apex_ns_rrset(config, zone_name.as_str());
    let delegation_delete = build_delegation_delete_rrset(zone_name.as_str());
    let r = ProvisionPlan {
        label: String::from_str(label),
        zone_name: zone_name,
        parent_zone: parent_zone,
        zone_create: zone_create,
        apex_rrsets: apex_rrsets,
        delegation_rrset: delegation_rrset,
        delegation_delete: delegation_delete,
    };
    proof {
        assert(r.deep_view().apex_rrsets =~= spec_build_plan(
            config.deep_view(),
            label@,
            year,
            month,
            day,
        ).apex_rrsets);
        assert(r.deep_view() =~~= spec_build_plan(config.deep_view(), label@, year, month, day));
    }
    r
}

} // verus!
