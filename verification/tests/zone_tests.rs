use satsuki::powerdns::{PdnsRecord, PdnsRrset};
use satsuki::zone::{
    count_delegations, dns_label_occupied, find_zone_soa, group_ns_records, normalize_dns_name,
};

fn rrset(name: &str, rrtype: &str, contents: &[&str]) -> PdnsRrset {
    PdnsRrset {
        name: String::from(name),
        rrtype: String::from(rrtype),
        ttl: 300,
        changetype: None,
        records: contents
            .iter()
            .map(|c| PdnsRecord { content: String::from(*c), disabled: false })
            .collect(),
        comments: Vec::new(),
    }
}

#[test]
fn normalize_dns_name_lowers_and_trims() {
    assert_eq!(normalize_dns_name("ExAmple.COM.."), "example.com");
    assert_eq!(normalize_dns_name("already.lower"), "already.lower");
    assert_eq!(normalize_dns_name(""), "");
}

#[test]
fn occupancy_compares_normalized_names() {
    let rrsets = Some(vec![rrset("Alice.Example.Com.", "NS", &["ns1.example.net."])]);
    assert!(dns_label_occupied(&rrsets, "alice.example.com."));
    assert!(!dns_label_occupied(&rrsets, "bob.example.com."));
    assert!(!dns_label_occupied(&None, "alice.example.com."));
    assert!(!dns_label_occupied(&Some(Vec::new()), "alice.example.com."));
}

#[test]
fn finds_parent_soa() {
    let rrsets = Some(vec![
        rrset("a.example.com.", "NS", &["ns1.example.net."]),
        rrset("example.com.", "SOA", &[]),
        rrset("example.com.", "soa", &["primary. contact. 1 2 3 4 5"]),
    ]);
    // the first SOA RRset for the zone itself that actually has a record
    assert_eq!(
        find_zone_soa(&rrsets, "example.com."),
        Some(String::from("primary. contact. 1 2 3 4 5"))
    );
    assert_eq!(find_zone_soa(&rrsets, "other.com."), None);
    assert_eq!(find_zone_soa(&None, "example.com."), None);
}

#[test]
fn groups_ns_records_by_owner() {
    let rrsets = Some(vec![
        rrset("a.example.com.", "NS", &["ns1.example.net."]),
        rrset("b.example.com.", "A", &["1.1.1.1"]),
        rrset("a.example.com.", "NS", &["ns2.example.net."]),
        rrset("b.example.com.", "NS", &["ns3.example.net."]),
    ]);
    let grouped = group_ns_records(&rrsets);
    assert_eq!(grouped.len(), 2);
    assert_eq!(grouped[0].name, "a.example.com.");
    assert_eq!(
        grouped[0].records,
        vec![String::from("ns1.example.net."), String::from("ns2.example.net.")]
    );
    assert_eq!(grouped[1].name, "b.example.com.");
    assert_eq!(grouped[1].records, vec![String::from("ns3.example.net.")]);
    assert_eq!(group_ns_records(&None).len(), 0);
}

#[test]
fn lists_ns_owners_in_ascending_order() {
    // fetched order b, c, a; the listing comes out sorted by owner name
    let rrsets = Some(vec![
        rrset("b.example.com.", "NS", &["ns1.example.net."]),
        rrset("c.example.com.", "NS", &["ns2.example.net."]),
        rrset("a.example.com.", "NS", &["ns3.example.net."]),
    ]);
    let grouped = group_ns_records(&rrsets);
    assert_eq!(grouped.len(), 3);
    assert_eq!(grouped[0].name, "a.example.com.");
    assert_eq!(grouped[1].name, "b.example.com.");
    assert_eq!(grouped[2].name, "c.example.com.");
}

#[test]
fn counts_distinct_delegations() {
    let rrsets = Some(vec![
        rrset("example.com.", "NS", &["ns1.example.net."]),
        rrset("a.example.com.", "NS", &["ns1.example.net."]),
        rrset("A.example.com", "NS", &["ns2.example.net."]),
        rrset("b.example.com.", "NS", &["ns1.example.net."]),
        rrset("c.example.com.", "A", &["1.1.1.1"]),
    ]);
    // the apex itself is not a delegation; a and A.example.com normalize equal
    assert_eq!(count_delegations(&rrsets, "example.com."), 2);
    assert_eq!(count_delegations(&None, "example.com."), 0);
}
