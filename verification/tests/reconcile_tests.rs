use satsuki::error::AppError;
use satsuki::powerdns::{PdnsRecord, PdnsRrset};
use satsuki::reconcile::{normalize_owner, reconcile_records, zone_records, RecordDto};

const ZONE: &str = "sub.example.com.";

fn rec(name: &str, rrtype: &str, ttl: u32, content: &str) -> RecordDto {
    RecordDto {
        name: String::from(name),
        rrtype: String::from(rrtype),
        ttl,
        content: String::from(content),
        priority: None,
    }
}

fn assert_rrsets_equal(a: &[PdnsRrset], b: &[PdnsRrset]) {
    assert_eq!(a.len(), b.len());
    for (x, y) in a.iter().zip(b.iter()) {
        assert_eq!(x.name, y.name);
        assert_eq!(x.rrtype, y.rrtype);
        assert_eq!(x.ttl, y.ttl);
        assert_eq!(x.changetype, y.changetype);
        assert_eq!(x.records.len(), y.records.len());
        for (rx, ry) in x.records.iter().zip(y.records.iter()) {
            assert_eq!(rx.content, ry.content);
            assert_eq!(rx.disabled, ry.disabled);
        }
        assert_eq!(x.comments.len(), y.comments.len());
    }
}

#[test]
fn rejects_soa_records() {
    let records = vec![rec("@", "SOA", 300, "x")];
    match reconcile_records(ZONE, &records) {
        Err(AppError::BadRequest(m)) => {
            assert_eq!(m, "SOA records are managed automatically and cannot be modified")
        }
        other => panic!("expected a bad-request error, got {:?}", other),
    }
    // lowercase type is uppercased before the check
    let records = vec![rec("www", "soa", 300, "x")];
    assert!(reconcile_records(ZONE, &records).is_err());
}

#[test]
fn rejects_apex_ns_records() {
    let records = vec![rec("@", "NS", 300, "ns1.")];
    match reconcile_records(ZONE, &records) {
        Err(AppError::BadRequest(m)) => {
            assert_eq!(m, "apex NS records must be managed via NS-mode endpoints")
        }
        other => panic!("expected a bad-request error, got {:?}", other),
    }
    // non-apex NS records are allowed
    let records = vec![rec("child", "NS", 300, "ns1.elsewhere.net.")];
    assert!(reconcile_records(ZONE, &records).is_ok());
}

#[test]
fn rejects_zero_ttl() {
    let records = vec![rec("a", "A", 0, "1.1.1.1")];
    match reconcile_records(ZONE, &records) {
        Err(AppError::BadRequest(m)) => assert_eq!(m, "ttl must be greater than 0"),
        other => panic!("expected a bad-request error, got {:?}", other),
    }
}

#[test]
fn rejects_conflicting_ttls() {
    let records = vec![rec("a", "A", 60, "1.1.1.1"), rec("a", "A", 120, "2.2.2.2")];
    match reconcile_records(ZONE, &records) {
        Err(AppError::BadRequest(m)) => {
            assert_eq!(m, "conflicting TTLs for a.sub.example.com. A")
        }
        other => panic!("expected a bad-request error, got {:?}", other),
    }
}

#[test]
fn empty_name_means_apex() {
    let records = vec![rec("", "TXT", 300, "v=hi")];
    let rrsets = reconcile_records(ZONE, &records).unwrap();
    assert_eq!(rrsets.len(), 1);
    assert_eq!(rrsets[0].name, "sub.example.com.");
    assert_eq!(rrsets[0].rrtype, "TXT");
    assert_eq!(rrsets[0].ttl, 300);
    assert_eq!(rrsets[0].changetype, Some(String::from("REPLACE")));
    assert_eq!(rrsets[0].records.len(), 1);
    assert_eq!(rrsets[0].records[0].content, "v=hi");
    assert!(!rrsets[0].records[0].disabled);
}

#[test]
fn groups_same_owner_and_type() {
    let records = vec![
        rec("a", "A", 60, "1.1.1.1"),
        rec("b", "A", 60, "9.9.9.9"),
        rec("a", "A", 60, "2.2.2.2"),
    ];
    let rrsets = reconcile_records(ZONE, &records).unwrap();
    assert_eq!(rrsets.len(), 2);
    assert_eq!(rrsets[0].name, "a.sub.example.com.");
    assert_eq!(rrsets[0].records.len(), 2);
    assert_eq!(rrsets[0].records[0].content, "1.1.1.1");
    assert_eq!(rrsets[0].records[1].content, "2.2.2.2");
    assert_eq!(rrsets[1].name, "b.sub.example.com.");
    assert_eq!(rrsets[1].records.len(), 1);
}

#[test]
fn emits_groups_sorted_by_owner_and_type() {
    // client order b-then-a; the replace-list comes out ascending
    let records = vec![
        rec("b", "A", 60, "9.9.9.9"),
        rec("a", "TXT", 300, "v=hi"),
        rec("a", "A", 60, "1.1.1.1"),
    ];
    let rrsets = reconcile_records(ZONE, &records).unwrap();
    assert_eq!(rrsets.len(), 3);
    assert_eq!(rrsets[0].name, "a.sub.example.com.");
    assert_eq!(rrsets[0].rrtype, "A");
    assert_eq!(rrsets[1].name, "a.sub.example.com.");
    assert_eq!(rrsets[1].rrtype, "TXT");
    assert_eq!(rrsets[2].name, "b.sub.example.com.");
    assert_eq!(rrsets[2].rrtype, "A");
}

#[test]
fn output_is_independent_of_group_order() {
    // two permutations that keep the relative order within each group
    let records1 = vec![
        rec("b", "A", 60, "9.9.9.9"),
        rec("a", "A", 60, "1.1.1.1"),
        rec("a", "A", 60, "2.2.2.2"),
    ];
    let records2 = vec![
        rec("a", "A", 60, "1.1.1.1"),
        rec("a", "A", 60, "2.2.2.2"),
        rec("b", "A", 60, "9.9.9.9"),
    ];
    let out1 = reconcile_records(ZONE, &records1).unwrap();
    let out2 = reconcile_records(ZONE, &records2).unwrap();
    assert_rrsets_equal(&out1, &out2);
    assert_eq!(out1[0].name, "a.sub.example.com.");
    assert_eq!(out1[0].records.len(), 2);
    assert_eq!(out1[1].name, "b.sub.example.com.");
}

#[test]
fn reconcile_is_deterministic() {
    let records = vec![
        rec("a", "A", 60, "1.1.1.1"),
        rec("@", "TXT", 300, "v=spf1 -all"),
        rec("a", "a", 60, "2.2.2.2"),
        rec("mail.sub.example.com.", "MX", 600, "10 mx.sub.example.com."),
    ];
    let first = reconcile_records(ZONE, &records).unwrap();
    let second = reconcile_records(ZONE, &records).unwrap();
    assert_rrsets_equal(&first, &second);
}

#[test]
fn normalize_owner_cases() {
    assert_eq!(normalize_owner("@", ZONE).unwrap(), "sub.example.com.");
    assert_eq!(normalize_owner("", ZONE).unwrap(), "sub.example.com.");
    assert_eq!(normalize_owner("  ", ZONE).unwrap(), "sub.example.com.");
    assert_eq!(normalize_owner("www", ZONE).unwrap(), "www.sub.example.com.");
    assert_eq!(
        normalize_owner("www.sub.example.com.", ZONE).unwrap(),
        "www.sub.example.com."
    );
    assert_eq!(
        normalize_owner("SUB.EXAMPLE.COM.", ZONE).unwrap(),
        "SUB.EXAMPLE.COM."
    );
    assert_eq!(
        normalize_owner("other.example.com.", ZONE),
        Err(String::from("record name must be within your zone"))
    );
    // a dotted name that only shares a suffix without a label boundary
    assert_eq!(
        normalize_owner("xsub.example.com.", ZONE),
        Err(String::from("record name must be within your zone"))
    );
}

#[test]
fn zone_records_hides_soa_and_apex_ns() {
    let rrsets = Some(vec![
        PdnsRrset {
            name: String::from("sub.example.com."),
            rrtype: String::from("SOA"),
            ttl: 3600,
            changetype: None,
            records: vec![PdnsRecord { content: String::from("soa data"), disabled: false }],
            comments: Vec::new(),
        },
        PdnsRrset {
            name: String::from("sub.example.com."),
            rrtype: String::from("NS"),
            ttl: 300,
            changetype: None,
            records: vec![PdnsRecord {
                content: String::from("ns1.example.net."),
                disabled: false,
            }],
            comments: Vec::new(),
        },
        PdnsRrset {
            name: String::from("a.sub.example.com."),
            rrtype: String::from("A"),
            ttl: 60,
            changetype: None,
            records: vec![
                PdnsRecord { content: String::from("1.1.1.1"), disabled: false },
                PdnsRecord { content: String::from("2.2.2.2"), disabled: false },
            ],
            comments: Vec::new(),
        },
    ]);
    let out = zone_records("sub.example.com.", &rrsets);
    assert_eq!(out.len(), 2);
    assert_eq!(out[0].name, "a.sub.example.com.");
    assert_eq!(out[0].rrtype, "A");
    assert_eq!(out[0].ttl, 60);
    assert_eq!(out[0].content, "1.1.1.1");
    assert_eq!(out[1].content, "2.2.2.2");
    assert_eq!(zone_records("sub.example.com.", &None).len(), 0);
}
