use satsuki::config::AppConfig;
use satsuki::error::AppError;
use satsuki::powerdns::{PdnsRecord, PdnsRrset};
use satsuki::provision::{
    build_apex_ns_rrset, build_apex_soa_rrset, build_delegation_delete_rrset,
    build_provision_plan, check_subdomain_availability, provision_precheck, saga_action,
    saga_initial_state, saga_next, SagaAction, SagaEvent, SagaOutcome, SagaState,
};

fn sample_config() -> AppConfig {
    AppConfig {
        base_domain: String::from("example.com"),
        internal_ns: vec![
            String::from("ns1.example.net."),
            String::from("ns2.example.net."),
        ],
        internal_main_ns: String::from("ns1.example.net."),
        internal_contact: String::from("hostmaster.example.com."),
        disallowed_subdomains: Vec::new(),
    }
}

fn delegation(name: &str) -> PdnsRrset {
    PdnsRrset {
        name: String::from(name),
        rrtype: String::from("NS"),
        ttl: 300,
        changetype: None,
        records: vec![PdnsRecord { content: String::from("ns1.example.net."), disabled: false }],
        comments: Vec::new(),
    }
}

#[test]
fn precheck_passes_fresh_label() {
    let c = sample_config();
    assert!(provision_precheck(&c, "alice", false, &Some(Vec::new())).is_ok());
}

#[test]
fn precheck_rejects_bad_syntax() {
    let c = sample_config();
    match provision_precheck(&c, "Bad Label", false, &None) {
        Err(AppError::BadRequest(m)) => assert_eq!(
            m,
            "subdomain contains invalid characters (only a-z, 0-9, and '-' allowed)"
        ),
        other => panic!("expected a bad-request error, got {:?}", other),
    }
}

#[test]
fn precheck_rejects_reserved_label() {
    let c = sample_config();
    match provision_precheck(&c, "www", false, &None) {
        Err(AppError::BadRequest(m)) => assert_eq!(m, "requested subdomain is reserved"),
        other => panic!("expected a bad-request error, got {:?}", other),
    }
}

#[test]
fn precheck_conflicts_when_store_has_label() {
    let c = sample_config();
    match provision_precheck(&c, "alice", true, &None) {
        Err(AppError::Conflict(m)) => assert_eq!(m, "already exists"),
        other => panic!("expected a conflict error, got {:?}", other),
    }
}

#[test]
fn precheck_conflicts_when_dns_has_label() {
    let c = sample_config();
    let rrsets = Some(vec![delegation("Alice.Example.Com.")]);
    match provision_precheck(&c, "alice", false, &rrsets) {
        Err(AppError::Conflict(m)) => assert_eq!(m, "already exists"),
        other => panic!("expected a conflict error, got {:?}", other),
    }
}

#[test]
fn precheck_fails_without_nameservers() {
    let mut c = sample_config();
    c.internal_ns = Vec::new();
    match provision_precheck(&c, "alice", false, &None) {
        Err(AppError::Internal(m)) => assert_eq!(m, "no internal nameservers configured"),
        other => panic!("expected an internal error, got {:?}", other),
    }
}

#[test]
fn availability_reflects_store_and_dns() {
    let c = sample_config();
    assert!(check_subdomain_availability(&c, "alice", false, &None).unwrap().available);
    assert!(!check_subdomain_availability(&c, "alice", true, &None).unwrap().available);
    let rrsets = Some(vec![delegation("alice.example.com.")]);
    assert!(!check_subdomain_availability(&c, "alice", false, &rrsets).unwrap().available);
    assert!(check_subdomain_availability(&c, "www", false, &None).is_err());
}

#[test]
fn apex_ns_rrset_lists_internal_nameservers() {
    let c = sample_config();
    let rr = build_apex_ns_rrset(&c, "alice.example.com.");
    assert_eq!(rr.name, "alice.example.com.");
    assert_eq!(rr.rrtype, "NS");
    assert_eq!(rr.ttl, 300);
    assert_eq!(rr.changetype, Some(String::from("REPLACE")));
    assert_eq!(rr.records.len(), 2);
    assert_eq!(rr.records[0].content, "ns1.example.net.");
    assert_eq!(rr.records[1].content, "ns2.example.net.");
}

#[test]
fn apex_soa_rrset_mints_dated_serial() {
    let c = sample_config();
    let rr = build_apex_soa_rrset(&c, "alice.example.com.", 2026, 3, 7);
    assert_eq!(rr.name, "alice.example.com.");
    assert_eq!(rr.rrtype, "SOA");
    assert_eq!(rr.ttl, 3600);
    assert_eq!(rr.changetype, Some(String::from("REPLACE")));
    assert_eq!(rr.records.len(), 1);
    assert_eq!(
        rr.records[0].content,
        "ns1.example.net. hostmaster.example.com. 2026030701 7200 900 1209600 300"
    );
}

#[test]
fn delegation_delete_rrset_clears_the_slot() {
    let rr = build_delegation_delete_rrset("alice.example.com.");
    assert_eq!(rr.name, "alice.example.com.");
    assert_eq!(rr.rrtype, "NS");
    assert_eq!(rr.changetype, Some(String::from("DELETE")));
    assert!(rr.records.is_empty());
}

#[test]
fn provision_plan_names_both_zones() {
    let c = sample_config();
    let plan = build_provision_plan(&c, "alice", 2026, 10, 11);
    assert_eq!(plan.label, "alice");
    assert_eq!(plan.zone_name, "alice.example.com.");
    assert_eq!(plan.parent_zone, "example.com.");
    assert_eq!(plan.zone_create.name, "alice.example.com.");
    assert_eq!(plan.zone_create.kind, "Native");
    assert_eq!(plan.zone_create.nameservers, c.internal_ns);
    assert_eq!(plan.apex_rrsets.len(), 2);
    assert_eq!(plan.apex_rrsets[0].rrtype, "NS");
    assert_eq!(plan.apex_rrsets[1].rrtype, "SOA");
    assert_eq!(plan.delegation_rrset.name, "alice.example.com.");
    assert_eq!(plan.delegation_delete.changetype, Some(String::from("DELETE")));
}

#[test]
fn saga_happy_path_reports_success() {
    let mut s = saga_initial_state();
    let mut actions = Vec::new();
    loop {
        let a = saga_action(&s);
        if a == SagaAction::Report {
            break;
        }
        actions.push(a);
        s = saga_next(&s, &SagaEvent::Succeeded);
    }
    assert_eq!(
        actions,
        vec![
            SagaAction::CreateZone,
            SagaAction::PatchSubApex,
            SagaAction::PatchParentDelegation,
            SagaAction::InsertUser,
        ]
    );
    assert_eq!(s, SagaState::Done(SagaOutcome::Success));
}

#[test]
fn saga_unique_violation_compensates_and_reports_conflict() {
    let mut s = saga_initial_state();
    s = saga_next(&s, &SagaEvent::Succeeded); // zone created
    s = saga_next(&s, &SagaEvent::Succeeded); // apex written
    s = saga_next(&s, &SagaEvent::Succeeded); // delegation written
    s = saga_next(&s, &SagaEvent::FailedUniqueViolation); // insert lost the race
    assert_eq!(saga_action(&s), SagaAction::DeleteParentDelegation);
    s = saga_next(&s, &SagaEvent::Succeeded);
    assert_eq!(saga_action(&s), SagaAction::DeleteSubZone);
    s = saga_next(&s, &SagaEvent::Succeeded);
    assert_eq!(s, SagaState::Done(SagaOutcome::Conflict));
}

#[test]
fn saga_upstream_failure_compensates_and_reports_failure() {
    let mut s = saga_initial_state();
    s = saga_next(&s, &SagaEvent::Succeeded);
    s = saga_next(&s, &SagaEvent::Failed); // apex write failed
    assert_eq!(saga_action(&s), SagaAction::DeleteParentDelegation);
    s = saga_next(&s, &SagaEvent::Failed); // compensation results are ignored
    assert_eq!(saga_action(&s), SagaAction::DeleteSubZone);
    s = saga_next(&s, &SagaEvent::Failed);
    assert_eq!(s, SagaState::Done(SagaOutcome::Failed));
}

#[test]
fn saga_create_failure_needs_no_compensation() {
    let s = saga_initial_state();
    let s = saga_next(&s, &SagaEvent::Failed);
    assert_eq!(s, SagaState::Done(SagaOutcome::Failed));
}
