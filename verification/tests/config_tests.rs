use satsuki::config::{AppConfig, build_app_config, default_disallowed_subdomains, normalize_fqdn};
use satsuki::error::AppError;

fn sample_config() -> AppConfig {
    AppConfig {
        base_domain: String::from("example.com"),
        internal_ns: vec![
            String::from("ns1.example.net."),
            String::from("ns2.example.net."),
        ],
        internal_main_ns: String::from("ns1.example.net."),
        internal_contact: String::from("hostmaster.example.com."),
        disallowed_subdomains: Vec::new(),
    }
}

#[test]
fn base_domain_root_trims_dots() {
    let mut c = sample_config();
    c.base_domain = String::from("example.com..");
    assert_eq!(c.base_domain_root(), "example.com");
}

#[test]
fn parent_zone_name_has_trailing_dot() {
    let c = sample_config();
    assert_eq!(c.parent_zone_name(), "example.com.");
}

#[test]
fn user_zone_name_is_label_under_base() {
    let c = sample_config();
    assert_eq!(c.user_zone_name("alice"), "alice.example.com.");
}

#[test]
fn default_reserved_list_applies_when_custom_empty() {
    let c = sample_config();
    assert!(c.is_disallowed_subdomain("www"));
    assert!(c.is_disallowed_subdomain("WWW"));
    assert!(c.is_disallowed_subdomain("localhost"));
    assert!(!c.is_disallowed_subdomain("alice"));
    assert_eq!(c.effective_disallowed_subdomains().len(), 16);
    assert_eq!(default_disallowed_subdomains().len(), 16);
}

#[test]
fn custom_reserved_list_replaces_default() {
    let mut c = sample_config();
    c.disallowed_subdomains = vec![String::from("internal")];
    assert!(c.is_disallowed_subdomain("internal"));
    assert!(c.is_disallowed_subdomain("INTERNAL"));
    assert!(!c.is_disallowed_subdomain("www"));
    assert_eq!(c.effective_disallowed_subdomains(), vec![String::from("internal")]);
}

#[test]
fn normalize_fqdn_appends_dot() {
    assert_eq!(normalize_fqdn("example.com").unwrap(), "example.com.");
    assert_eq!(normalize_fqdn(" ns1.example.net.. ").unwrap(), "ns1.example.net.");
    match normalize_fqdn("") {
        Err(AppError::BadRequest(m)) => assert_eq!(m, "FQDN cannot be empty"),
        other => panic!("expected a bad-request error, got {:?}", other),
    }
    match normalize_fqdn("...") {
        Err(AppError::BadRequest(_)) => {}
        other => panic!("expected a bad-request error, got {:?}", other),
    }
}

#[test]
fn build_app_config_defaults() {
    let cfg = build_app_config(
        "example.com.",
        &vec![String::from("ns1.example.net"), String::from("ns2.example.net.")],
        &None,
        &None,
        &vec![String::from(" Staff "), String::from("")],
    )
    .unwrap();
    assert_eq!(cfg.base_domain, "example.com");
    assert_eq!(
        cfg.internal_ns,
        vec![String::from("ns1.example.net."), String::from("ns2.example.net.")]
    );
    assert_eq!(cfg.internal_main_ns, "ns1.example.net.");
    assert_eq!(cfg.internal_contact, "hostmaster.example.com.");
    assert_eq!(cfg.disallowed_subdomains, vec![String::from("staff")]);
}

#[test]
fn build_app_config_overrides() {
    let cfg = build_app_config(
        "example.com",
        &vec![String::from("ns1.example.net.")],
        &Some(String::from("primary.example.net")),
        &Some(String::from("admin.example.org")),
        &Vec::new(),
    )
    .unwrap();
    assert_eq!(cfg.internal_main_ns, "primary.example.net.");
    assert_eq!(cfg.internal_contact, "admin.example.org.");
}

#[test]
fn build_app_config_requires_nameservers() {
    match build_app_config("example.com", &Vec::new(), &None, &None, &Vec::new()) {
        Err(AppError::BadRequest(m)) => {
            assert_eq!(m, "at least one --internal-ns value is required")
        }
        other => panic!("expected a bad-request error, got {:?}", other),
    }
}

#[test]
fn build_app_config_rejects_bad_nameserver() {
    match build_app_config(
        "example.com",
        &vec![String::from("ns1.example.net."), String::from("...")],
        &None,
        &None,
        &Vec::new(),
    ) {
        Err(AppError::BadRequest(m)) => {
            assert_eq!(m, "invalid internal-ns value '...'")
        }
        other => panic!("expected a bad-request error, got {:?}", other),
    }
}
