use satsuki::config::AppConfig;
use satsuki::delegation::{switch_to_external_plan, switch_to_operator_plan};
use satsuki::error::AppError;

fn sample_config() -> AppConfig {
    AppConfig {
        base_domain: String::from("example.com"),
        internal_ns: vec![
            String::from("ns1.example.net."),
            String::from("ns2.example.net."),
        ],
        internal_main_ns: String::from("ns1.example.net."),
        internal_contact: String::from("hostmaster.example.com."),
        disallowed_subdomains: Vec::new(),
    }
}

#[test]
fn operator_switch_restores_internal_ns() {
    let c = sample_config();
    let plan = switch_to_operator_plan(&c, "alice");
    assert_eq!(plan.zone_name, "alice.example.com.");
    assert_eq!(plan.parent_zone, "example.com.");
    assert_eq!(plan.rrset.name, "alice.example.com.");
    assert_eq!(plan.rrset.rrtype, "NS");
    assert_eq!(plan.rrset.ttl, 300);
    assert_eq!(plan.rrset.changetype, Some(String::from("REPLACE")));
    assert_eq!(plan.rrset.records.len(), 2);
    assert_eq!(plan.rrset.records[0].content, "ns1.example.net.");
    assert!(!plan.update.external_ns);
    assert_eq!(plan.update.ns1, None);
    assert_eq!(plan.update.ns6, None);
}

#[test]
fn external_switch_rejects_empty_list() {
    let c = sample_config();
    match switch_to_external_plan(&c, "alice", &Vec::new()) {
        Err(AppError::BadRequest(m)) => assert_eq!(m, "at least one NS required"),
        other => panic!("expected a bad-request error, got {:?}", other),
    }
}

#[test]
fn external_switch_rejects_seven_entries() {
    let c = sample_config();
    let ns: Vec<String> = (1..=7).map(|i| format!("ns{}.example.org.", i)).collect();
    match switch_to_external_plan(&c, "alice", &ns) {
        Err(AppError::BadRequest(m)) => assert_eq!(m, "up to six nameservers supported"),
        other => panic!("expected a bad-request error, got {:?}", other),
    }
}

#[test]
fn external_switch_rejects_undotted_entry() {
    let c = sample_config();
    let ns = vec![String::from("notfqdn")];
    match switch_to_external_plan(&c, "alice", &ns) {
        Err(AppError::BadRequest(m)) => assert_eq!(m, "nameservers must end with '.'"),
        other => panic!("expected a bad-request error, got {:?}", other),
    }
}

#[test]
fn external_switch_rejects_malformed_fqdn() {
    let c = sample_config();
    let ns = vec![String::from("bad..name.")];
    match switch_to_external_plan(&c, "alice", &ns) {
        Err(AppError::BadRequest(m)) => assert_eq!(m, "subdomain is empty"),
        other => panic!("expected a bad-request error, got {:?}", other),
    }
}

#[test]
fn external_switch_fills_one_slot() {
    let c = sample_config();
    let ns = vec![String::from("ns1.example.net.")];
    let plan = switch_to_external_plan(&c, "alice", &ns).unwrap();
    assert_eq!(plan.zone_name, "alice.example.com.");
    assert_eq!(plan.parent_zone, "example.com.");
    assert_eq!(plan.rrset.records.len(), 1);
    assert_eq!(plan.rrset.records[0].content, "ns1.example.net.");
    assert!(plan.update.external_ns);
    assert_eq!(plan.update.ns1, Some(String::from("ns1.example.net.")));
    assert_eq!(plan.update.ns2, None);
    assert_eq!(plan.update.ns3, None);
    assert_eq!(plan.update.ns4, None);
    assert_eq!(plan.update.ns5, None);
    assert_eq!(plan.update.ns6, None);
}

#[test]
fn external_switch_fills_all_six_slots() {
    let c = sample_config();
    let ns: Vec<String> = (1..=6).map(|i| format!("ns{}.example.org.", i)).collect();
    let plan = switch_to_external_plan(&c, "alice", &ns).unwrap();
    assert_eq!(plan.rrset.records.len(), 6);
    assert_eq!(plan.update.ns1, Some(String::from("ns1.example.org.")));
    assert_eq!(plan.update.ns6, Some(String::from("ns6.example.org.")));
}
