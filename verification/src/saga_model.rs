//! An abstract model of the three backends the saga writes to — the parent
//! zone, the per-user zones, and the user store — together with proofs of
//! the saga's end-to-end guarantees: what a fully successful run leaves
//! behind, that occupied labels are rejected before any mutation, that
//! compensation restores the DNS after a failed insert, and that the store's
//! uniqueness constraint picks exactly one winner among concurrent signups.
//!
//! The model tracks the effect of the saga's own writes. A freshly created
//! zone is modelled as empty: the server's automatically created apex
//! records are replaced by the saga's apex patch before anything reads them.

use vstd::prelude::*;
use crate::config::{AppConfigV, spec_user_zone_name};
use crate::delegation::spec_ns_rrset;
use crate::error::AppErrorV;
use crate::powerdns::PdnsRrsetV;
use crate::provision::{ProvisionPlanV, SagaAction, SagaEvent, SagaOutcome, SagaState,
    spec_apex_soa_rrset, spec_build_plan, spec_provision_precheck, spec_saga_action,
    spec_saga_next};
use crate::validation::spec_validate_label;
use crate::config::spec_is_disallowed;

verus! {

broadcast use vstd::string::group_string_axioms;

/// A zone's contents: one RRset per (owner name, record type).
pub type ZoneRrsets = Map<(Seq<char>, Seq<char>), PdnsRrsetV>;

/// The combined state of the three backends.
#[verifier::ext_equal]
pub struct DnsWorld {
    /// The parent zone on the base server.
    pub parent: ZoneRrsets,
    /// The per-user zones on the sub server, by zone name.
    pub sub_zones: Map<Seq<char>, ZoneRrsets>,
    /// The labels owned in the user store.
    pub store: Set<Seq<char>>,
}

/// One RRset patch: a replace with records sets the (owner, type) slot; a
/// delete directive or an empty record list clears it. The server documents
/// this replace-empty/delete equivalence, and compensation relies on it.
pub open spec fn apply_rrset_patch(zone: ZoneRrsets, rr: PdnsRrsetV) -> ZoneRrsets {
    if rr.changetype == Some("DELETE"@) || rr.records.len() == 0 {
        zone.remove((rr.name, rr.rrtype))
    } else {
        zone.insert((rr.name, rr.rrtype), rr)
    }
}

/// A patch list applied in order.
pub open spec fn apply_rrset_patches(zone: ZoneRrsets, rrs: Seq<PdnsRrsetV>) -> ZoneRrsets
    decreases rrs.len(),
{
    if rrs.len() == 0 {
        zone
    } else {
        apply_rrset_patches(apply_rrset_patch(zone, rrs[0]), rrs.drop_first())
    }
}

/// The effect of one saga action on the world when the call succeeds; a
/// failed call changes nothing.
pub open spec fn apply_saga_action(
    w: DnsWorld,
    plan: ProvisionPlanV,
    a: SagaAction,
    ok: bool,
) -> DnsWorld {
    if !ok {
        w
    } else {
        match a {
            SagaAction::CreateZone => DnsWorld {
                sub_zones: w.sub_zones.insert(plan.zone_name, Map::empty()),
                ..w
            },
            SagaAction::PatchSubApex => if w.sub_zones.dom().contains(plan.zone_name) {
                DnsWorld {
                    sub_zones: w.sub_zones.insert(
                        plan.zone_name,
                        apply_rrset_patches(w.sub_zones[plan.zone_name], plan.apex_rrsets),
                    ),
                    ..w
                }
            } else {
                w
            },
            SagaAction::PatchParentDelegation => DnsWorld {
                parent: apply_rrset_patch(w.parent, plan.delegation_rrset),
                ..w
            },
            SagaAction::InsertUser => DnsWorld { store: w.store.insert(plan.label), ..w },
            SagaAction::DeleteParentDelegation => DnsWorld {
                parent: apply_rrset_patch(w.parent, plan.delegation_delete),
                ..w
            },
            SagaAction::DeleteSubZone => DnsWorld {
                sub_zones: w.sub_zones.remove(plan.zone_name),
                ..w
            },
            SagaAction::Report => w,
        }
    }
}

/// A run of the saga: in each state the pending action is applied with the
/// next event's success, and the machine advances, until it reports.
pub open spec fn saga_run(
    w: DnsWorld,
    plan: ProvisionPlanV,
    s: SagaState,
    events: Seq<SagaEvent>,
) -> (DnsWorld, SagaState)
    decreases events.len(),
{
    if s is Done || events.len() == 0 {
        (w, s)
    } else {
        let e = events[0];
        let w1 = apply_saga_action(w, plan, spec_saga_action(s), e is Succeeded);
        saga_run(w1, plan, spec_saga_next(s, e), events.drop_first())
    }
}

/// What the store's uniqueness constraint allows an insert to report:
/// success only for an unclaimed label, a uniqueness violation only for a
/// claimed one.
pub open spec fn insert_event_consistent(
    store: Set<Seq<char>>,
    label: Seq<char>,
    e: SagaEvent,
) -> bool {
    &&& (e is Succeeded ==> !store.contains(label))
    &&& (e is FailedUniqueViolation ==> store.contains(label))
}

/// The store after an insert reported `e`.
pub open spec fn insert_outcome(
    store: Set<Seq<char>>,
    label: Seq<char>,
    e: SagaEvent,
) -> Set<Seq<char>> {
    if e is Succeeded {
        store.insert(label)
    } else {
        store
    }
}

/// A saga whose every call succeeds reports success and leaves: the label
/// owned in the store, the delegation NS RRset in the parent zone, and the
/// user zone present with exactly one apex NS RRset and one apex SOA RRset,
/// both as the plan wrote them.
pub proof fn lemma_provision_success_shape(
    w: DnsWorld,
    c: AppConfigV,
    label: Seq<char>,
    year: u32,
    month: u32,
    day: u32,
)
    requires
        c.internal_ns.len() > 0,
    ensures
        ({
            let plan = spec_build_plan(c, label, year, month, day);
            let r = saga_run(
                w,
                plan,
                SagaState::CreatingZone,
                seq![
                    SagaEvent::Succeeded,
                    SagaEvent::Succeeded,
                    SagaEvent::Succeeded,
                    SagaEvent::Succeeded,
                ],
            );
            &&& r.1 == SagaState::Done(SagaOutcome::Success)
            &&& r.0.store == w.store.insert(label)
            &&& r.0.parent == w.parent.insert(
                (plan.zone_name, "NS"@),
                plan.delegation_rrset,
            )
            &&& r.0.sub_zones.dom().contains(plan.zone_name)
            &&& r.0.sub_zones[plan.zone_name].dom() =~= set![
                (plan.zone_name, "NS"@),
                (plan.zone_name, "SOA"@),
            ]
            &&& r.0.sub_zones[plan.zone_name][(plan.zone_name, "NS"@)] == spec_ns_rrset(
                plan.zone_name,
                c.internal_ns,
            )
            &&& r.0.sub_zones[plan.zone_name][(plan.zone_name, "SOA"@)]
                == spec_apex_soa_rrset(c, plan.zone_name, year, month, day)
        }),
{
    reveal_strlit("NS");
    reveal_strlit("SOA");
    reveal_strlit("REPLACE");
    reveal_strlit("DELETE");
    assert("NS"@.len() == 2 && "SOA"@.len() == 3 && "REPLACE"@.len() == 7 && "DELETE"@.len()
        == 6);
    let plan = spec_build_plan(c, label, year, month, day);
    let zone = plan.zone_name;
    let e4 = seq![
        SagaEvent::Succeeded,
        SagaEvent::Succeeded,
        SagaEvent::Succeeded,
        SagaEvent::Succeeded,
    ];
    let e3 = seq![SagaEvent::Succeeded, SagaEvent::Succeeded, SagaEvent::Succeeded];
    let e2 = seq![SagaEvent::Succeeded, SagaEvent::Succeeded];
    let e1 = seq![SagaEvent::Succeeded];
    let e0 = Seq::<SagaEvent>::empty();
    assert(e4.drop_first() =~= e3);
    assert(e3.drop_first() =~= e2);
    assert(e2.drop_first() =~= e1);
    assert(e1.drop_first() =~= e0);

    let w1 = apply_saga_action(w, plan, SagaAction::CreateZone, true);
    let w2 = apply_saga_action(w1, plan, SagaAction::PatchSubApex, true);
    let w3 = apply_saga_action(w2, plan, SagaAction::PatchParentDelegation, true);
    let w4 = apply_saga_action(w3, plan, SagaAction::InsertUser, true);
    assert(saga_run(w, plan, SagaState::CreatingZone, e4) == saga_run(
        w1,
        plan,
        SagaState::WritingApex,
        e3,
    ));
    assert(saga_run(w1, plan, SagaState::WritingApex, e3) == saga_run(
        w2,
        plan,
        SagaState::WritingDelegation,
        e2,
    ));
    assert(saga_run(w2, plan, SagaState::WritingDelegation, e2) == saga_run(
        w3,
        plan,
        SagaState::InsertingUser,
        e1,
    ));
    assert(saga_run(w3, plan, SagaState::InsertingUser, e1) == saga_run(
        w4,
        plan,
        SagaState::Done(SagaOutcome::Success),
        e0,
    ));

    // the apex patch on the fresh zone
    let ns = spec_ns_rrset(zone, c.internal_ns);
    let soa = spec_apex_soa_rrset(c, zone, year, month, day);
    assert(plan.apex_rrsets.drop_first() =~= seq![soa]);
    assert(seq![soa].drop_first() =~= Seq::<PdnsRrsetV>::empty());
    assert(ns.records.len() == c.internal_ns.len());
    assert(ns.changetype != Some("DELETE"@));
    assert(soa.changetype != Some("DELETE"@));
    let z0 = Map::<(Seq<char>, Seq<char>), PdnsRrsetV>::empty();
    let z1 = z0.insert((zone, "NS"@), ns);
    let z2 = z1.insert((zone, "SOA"@), soa);
    assert(apply_rrset_patches(z0, plan.apex_rrsets) == apply_rrset_patches(
        z1,
        seq![soa],
    ));
    assert(apply_rrset_patches(z1, seq![soa]) == apply_rrset_patches(
        z2,
        Seq::<PdnsRrsetV>::empty(),
    ));
    assert("NS"@ != "SOA"@);
    assert(w2.sub_zones[zone] == z2);
    assert(z2.dom() =~= set![(zone, "NS"@), (zone, "SOA"@)]);
}

/// A label already owned in the store, or already delegated in the parent
/// zone, is rejected as a conflict by the pre-checks, before the saga — and
/// with it any DNS mutation — begins.
pub proof fn lemma_occupied_label_conflicts(
    c: AppConfigV,
    label: Seq<char>,
    store_exists: bool,
    parent_rrsets: Option<Seq<PdnsRrsetV>>,
)
    requires
        spec_validate_label(label) is Ok,
        !spec_is_disallowed(c, label),
        store_exists || crate::zone::spec_dns_occupied(
            parent_rrsets,
            spec_user_zone_name(c, label),
        ),
    ensures
        spec_provision_precheck(c, label, store_exists, parent_rrsets) == Err::<
            (),
            AppErrorV,
        >(AppErrorV::Conflict("already exists"@)),
{
}

/// If the store insert fails after all DNS writes succeeded and both
/// compensation calls succeed, the parent delegation RRset and the user zone
/// are absent afterward, the store is unchanged, and the reported outcome is
/// a conflict for a uniqueness violation and a flat failure otherwise.
pub proof fn lemma_compensation_cleans_up(
    w: DnsWorld,
    c: AppConfigV,
    label: Seq<char>,
    year: u32,
    month: u32,
    day: u32,
    insert_event: SagaEvent,
)
    requires
        c.internal_ns.len() > 0,
        !(insert_event is Succeeded),
        !w.parent.dom().contains(
            (spec_user_zone_name(c, label), "NS"@),
        ),  // guaranteed by the DNS-occupancy pre-check
        !w.sub_zones.dom().contains(spec_user_zone_name(c, label)),
    ensures
        ({
            let plan = spec_build_plan(c, label, year, month, day);
            let r = saga_run(
                w,
                plan,
                SagaState::CreatingZone,
                seq![
                    SagaEvent::Succeeded,
                    SagaEvent::Succeeded,
                    SagaEvent::Succeeded,
                    insert_event,
                    SagaEvent::Succeeded,
                    SagaEvent::Succeeded,
                ],
            );
            &&& r.1 == SagaState::Done(
                if insert_event is FailedUniqueViolation {
                    SagaOutcome::Conflict
                } else {
                    SagaOutcome::Failed
                },
            )
            &&& r.0.store == w.store
            &&& !r.0.parent.dom().contains((plan.zone_name, "NS"@))
            &&& r.0.parent =~= w.parent
            &&& !r.0.sub_zones.dom().contains(plan.zone_name)
            &&& r.0.sub_zones =~= w.sub_zones
        }),
{
    reveal_strlit("NS");
    reveal_strlit("SOA");
    reveal_strlit("REPLACE");
    reveal_strlit("DELETE");
    assert("NS"@.len() == 2 && "SOA"@.len() == 3 && "REPLACE"@.len() == 7 && "DELETE"@.len()
        == 6);
    let plan = spec_build_plan(c, label, year, month, day);
    let zone = plan.zone_name;
    let s = SagaEvent::Succeeded;
    let e6 = seq![s, s, s, insert_event, s, s];
    let e5 = seq![s, s, insert_event, s, s];
    let e4 = seq![s, insert_event, s, s];
    let e3 = seq![insert_event, s, s];
    let e2 = seq![s, s];
    let e1 = seq![s];
    let e0 = Seq::<SagaEvent>::empty();
    assert(e6.drop_first() =~= e5);
    assert(e5.drop_first() =~= e4);
    assert(e4.drop_first() =~= e3);
    assert(e3.drop_first() =~= e2);
    assert(e2.drop_first() =~= e1);
    assert(e1.drop_first() =~= e0);

    let out = if insert_event is FailedUniqueViolation {
        SagaOutcome::Conflict
    } else {
        SagaOutcome::Failed
    };
    let w1 = apply_saga_action(w, plan, SagaAction::CreateZone, true);
    let w2 = apply_saga_action(w1, plan, SagaAction::PatchSubApex, true);
    let w3 = apply_saga_action(w2, plan, SagaAction::PatchParentDelegation, true);
    let w4 = apply_saga_action(w3, plan, SagaAction::InsertUser, false);
    let w5 = apply_saga_action(w4, plan, SagaAction::DeleteParentDelegation, true);
    let w6 = apply_saga_action(w5, plan, SagaAction::DeleteSubZone, true);
    assert(saga_run(w, plan, SagaState::CreatingZone, e6) == saga_run(
        w1,
        plan,
        SagaState::WritingApex,
        e5,
    ));
    assert(saga_run(w1, plan, SagaState::WritingApex, e5) == saga_run(
        w2,
        plan,
        SagaState::WritingDelegation,
        e4,
    ));
    assert(saga_run(w2, plan, SagaState::WritingDelegation, e4) == saga_run(
        w3,
        plan,
        SagaState::InsertingUser,
        e3,
    ));
    assert(spec_saga_next(SagaState::InsertingUser, insert_event)
        == SagaState::RemovingDelegation(out));
    assert(saga_run(w3, plan, SagaState::InsertingUser, e3) == saga_run(
        w4,
        plan,
        SagaState::RemovingDelegation(out),
        e2,
    ));
    assert(saga_run(w4, plan, SagaState::RemovingDelegation(out), e2) == saga_run(
        w5,
        plan,
        SagaState::RemovingZone(out),
        e1,
    ));
    assert(saga_run(w5, plan, SagaState::RemovingZone(out), e1) == saga_run(
        w6,
        plan,
        SagaState::Done(out),
        e0,
    ));
    assert(w4.store == w.store);
    assert(w5.parent == w3.parent.remove((zone, "NS"@)));
    assert(w5.parent =~= w.parent);
    assert(w6.sub_zones =~= w.sub_zones);
}

/// If the apex write fails right after the zone was created, the saga still
/// runs both compensation steps: deleting the never-written delegation is a
/// no-op, deleting the fresh zone restores the sub server, and the store was
/// never touched.
pub proof fn lemma_early_failure_compensation(
    w: DnsWorld,
    c: AppConfigV,
    label: Seq<char>,
    year: u32,
    month: u32,
    day: u32,
)
    requires
        !w.parent.dom().contains((spec_user_zone_name(c, label), "NS"@)),
        !w.sub_zones.dom().contains(spec_user_zone_name(c, label)),
    ensures
        ({
            let plan = spec_build_plan(c, label, year, month, day);
            let r = saga_run(
                w,
                plan,
                SagaState::CreatingZone,
                seq![
                    SagaEvent::Succeeded,
                    SagaEvent::Failed,
                    SagaEvent::Succeeded,
                    SagaEvent::Succeeded,
                ],
            );
            &&& r.1 == SagaState::Done(SagaOutcome::Failed)
            &&& r.0.store == w.store
            &&& r.0.parent =~= w.parent
            &&& r.0.sub_zones =~= w.sub_zones
        }),
{
    reveal_strlit("NS");
    reveal_strlit("DELETE");
    let plan = spec_build_plan(c, label, year, month, day);
    let zone = plan.zone_name;
    let s = SagaEvent::Succeeded;
    let e4 = seq![s, SagaEvent::Failed, s, s];
    let e3 = seq![SagaEvent::Failed, s, s];
    let e2 = seq![s, s];
    let e1 = seq![s];
    let e0 = Seq::<SagaEvent>::empty();
    assert(e4.drop_first() =~= e3);
    assert(e3.drop_first() =~= e2);
    assert(e2.drop_first() =~= e1);
    assert(e1.drop_first() =~= e0);

    let w1 = apply_saga_action(w, plan, SagaAction::CreateZone, true);
    let w2 = apply_saga_action(w1, plan, SagaAction::PatchSubApex, false);
    let w3 = apply_saga_action(w2, plan, SagaAction::DeleteParentDelegation, true);
    let w4 = apply_saga_action(w3, plan, SagaAction::DeleteSubZone, true);
    assert(saga_run(w, plan, SagaState::CreatingZone, e4) == saga_run(
        w1,
        plan,
        SagaState::WritingApex,
        e3,
    ));
    assert(saga_run(w1, plan, SagaState::WritingApex, e3) == saga_run(
        w2,
        plan,
        SagaState::RemovingDelegation(SagaOutcome::Failed),
        e2,
    ));
    assert(saga_run(w2, plan, SagaState::RemovingDelegation(SagaOutcome::Failed), e2)
        == saga_run(w3, plan, SagaState::RemovingZone(SagaOutcome::Failed), e1));
    assert(saga_run(w3, plan, SagaState::RemovingZone(SagaOutcome::Failed), e1) == saga_run(
        w4,
        plan,
        SagaState::Done(SagaOutcome::Failed),
        e0,
    ));
    assert(w3.parent == w.parent.remove((zone, "NS"@)));
    assert(w3.parent =~= w.parent);
    assert(w4.sub_zones =~= w.sub_zones);
}

/// The store's uniqueness constraint linearizes two signups for one
/// unclaimed label: whichever insert reaches the store first succeeds, and
/// the other reports the uniqueness violation — never two successes.
pub proof fn lemma_insert_linearizes(
    store: Set<Seq<char>>,
    label: Seq<char>,
    e_first: SagaEvent,
    e_second: SagaEvent,
)
    requires
        !store.contains(label),
        !(e_first is Failed),
        !(e_second is Failed),
        insert_event_consistent(store, label, e_first),
        insert_event_consistent(insert_outcome(store, label, e_first), label, e_second),
    ensures
        e_first is Succeeded,
        e_second is FailedUniqueViolation,
{
}

/// Two concurrent signups for one label that both reached their store
/// insert: exactly one saga reports success, the other compensates and
/// reports a conflict, and the store holds the label exactly once.
pub proof fn lemma_concurrent_signup_single_winner(
    w: DnsWorld,
    c: AppConfigV,
    label: Seq<char>,
    year: u32,
    month: u32,
    day: u32,
    e_a: SagaEvent,
    e_b: SagaEvent,
)
    requires
        !w.store.contains(label),
        !(e_a is Failed),
        !(e_b is Failed),
        insert_event_consistent(w.store, label, e_a),
        insert_event_consistent(insert_outcome(w.store, label, e_a), label, e_b),
    ensures
        ({
            let plan = spec_build_plan(c, label, year, month, day);
            let s = SagaEvent::Succeeded;
            let r_a = saga_run(w, plan, SagaState::InsertingUser, seq![e_a, s, s]);
            let r_b = saga_run(r_a.0, plan, SagaState::InsertingUser, seq![e_b, s, s]);
            &&& e_a is Succeeded
            &&& e_b is FailedUniqueViolation
            &&& r_a.1 == SagaState::Done(SagaOutcome::Success)
            &&& r_b.1 == SagaState::Done(SagaOutcome::Conflict)
            &&& r_b.0.store == w.store.insert(label)
        }),
{
    lemma_insert_linearizes(w.store, label, e_a, e_b);
    let plan = spec_build_plan(c, label, year, month, day);
    let s = SagaEvent::Succeeded;
    let ea3 = seq![e_a, s, s];
    let eb3 = seq![e_b, s, s];
    let e2 = seq![s, s];
    let e1 = seq![s];
    let e0 = Seq::<SagaEvent>::empty();
    assert(ea3.drop_first() =~= e2);
    assert(eb3.drop_first() =~= e2);
    assert(e2.drop_first() =~= e1);
    assert(e1.drop_first() =~= e0);
    let w_a = apply_saga_action(w, plan, SagaAction::InsertUser, true);
    assert(saga_run(w, plan, SagaState::InsertingUser, ea3) == saga_run(
        w_a,
        plan,
        SagaState::Done(SagaOutcome::Success),
        e2,
    ));
    let r_a = saga_run(w, plan, SagaState::InsertingUser, ea3);
    let v4 = apply_saga_action(r_a.0, plan, SagaAction::InsertUser, false);
    let v5 = apply_saga_action(v4, plan, SagaAction::DeleteParentDelegation, true);
    let v6 = apply_saga_action(v5, plan, SagaAction::DeleteSubZone, true);
    assert(saga_run(r_a.0, plan, SagaState::InsertingUser, eb3) == saga_run(
        v4,
        plan,
        SagaState::RemovingDelegation(SagaOutcome::Conflict),
        e2,
    ));
    assert(saga_run(v4, plan, SagaState::RemovingDelegation(SagaOutcome::Conflict), e2)
        == saga_run(v5, plan, SagaState::RemovingZone(SagaOutcome::Conflict), e1));
    assert(saga_run(v5, plan, SagaState::RemovingZone(SagaOutcome::Conflict), e1)
        == saga_run(v6, plan, SagaState::Done(SagaOutcome::Conflict), e0));
}

/// Sequential form of the concurrency guarantee: after a winning signup, a
/// later attempt for the same label fails its pre-checks with a conflict —
/// before any saga action — so the DNS keeps exactly the winner's state.
pub proof fn lemma_second_signup_conflicts(
    w: DnsWorld,
    c: AppConfigV,
    label: Seq<char>,
    year: u32,
    month: u32,
    day: u32,
    parent_rrsets: Option<Seq<PdnsRrsetV>>,
)
    requires
        c.internal_ns.len() > 0,
        spec_validate_label(label) is Ok,
        !spec_is_disallowed(c, label),
    ensures
        ({
            let plan = spec_build_plan(c, label, year, month, day);
            let r = saga_run(
                w,
                plan,
                SagaState::CreatingZone,
                seq![
                    SagaEvent::Succeeded,
                    SagaEvent::Succeeded,
                    SagaEvent::Succeeded,
                    SagaEvent::Succeeded,
                ],
            );
            &&& r.0.store.contains(label)
            &&& spec_provision_precheck(c, label, r.0.store.contains(label), parent_rrsets)
                == Err::<(), AppErrorV>(AppErrorV::Conflict("already exists"@))
        }),
{
    lemma_provision_success_shape(w, c, label, year, month, day);
    let plan = spec_build_plan(c, label, year, month, day);
    let r = saga_run(
        w,
        plan,
        SagaState::CreatingZone,
        seq![
            SagaEvent::Succeeded,
            SagaEvent::Succeeded,
            SagaEvent::Succeeded,
            SagaEvent::Succeeded,
        ],
    );
    assert(r.0.store.contains(label));
    lemma_occupied_label_conflicts(c, label, true, parent_rrsets);
}

} // verus!
