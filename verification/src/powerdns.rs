//! The zone, RRset and record shapes exchanged with the authoritative DNS
//! servers, together with their spec-level views. The HTTP client that carries
//! them over the wire lives outside the library.

use vstd::prelude::*;

verus! {

/// Spec-level view of one record value.
#[verifier::ext_equal]
pub struct PdnsRecordV {
    pub content: Seq<char>,
    pub disabled: bool,
}

/// Spec-level view of one RRset.
#[verifier::ext_equal]
pub struct PdnsRrsetV {
    pub name: Seq<char>,
    pub rrtype: Seq<char>,
    pub ttl: u32,
    pub changetype: Option<Seq<char>>,
    pub records: Seq<PdnsRecordV>,
    pub comments: Seq<PdnsCommentV>,
}

/// Spec-level view of an RRset comment.
#[verifier::ext_equal]
pub struct PdnsCommentV {
    pub content: Seq<char>,
    pub account: Seq<char>,
    pub modified_at: Seq<char>,
}

/// Spec-level view of a fetched zone.
#[verifier::ext_equal]
pub struct PdnsZoneV {
    pub id: Seq<char>,
    pub name: Seq<char>,
    pub zone_type: Option<Seq<char>>,
    pub kind: Seq<char>,
    pub rrsets: Option<Seq<PdnsRrsetV>>,
}

/// Spec-level view of a zone-creation request.
#[verifier::ext_equal]
pub struct PdnsZoneCreateV {
    pub name: Seq<char>,
    pub kind: Seq<char>,
    pub nameservers: Seq<Seq<char>>,
}

/// Individual record content/flags stored inside an RRset.
#[derive(Debug, Clone)]
pub struct PdnsRecord {
    pub content: String,
    pub disabled: bool,
}

/// Metadata comment attached to an RRset.
#[derive(Debug, Clone)]
pub struct PdnsComment {
    pub content: String,
    pub account: String,
    pub modified_at: String,
}

/// The unit of DNS update: same-name, same-type records sharing one TTL,
/// with an optional replace/delete directive when patching.
#[derive(Debug, Clone)]
pub struct PdnsRrset {
    pub name: String,
    pub rrtype: String,
    pub ttl: u32,
    pub changetype: Option<String>,
    pub records: Vec<PdnsRecord>,
    pub comments: Vec<PdnsComment>,
}

/// Zone representation returned by the DNS server.
#[derive(Debug)]
pub struct PdnsZone {
    pub id: String,
    pub name: String,
    pub zone_type: Option<String>,
    pub kind: String,
    pub rrsets: Option<Vec<PdnsRrset>>,
}

/// Payload accepted by the DNS server when creating a zone.
#[derive(Debug, Clone)]
pub struct PdnsZoneCreate {
    pub name: String,
    pub kind: String,
    pub nameservers: Vec<String>,
}

impl DeepView for PdnsRecord {
    type V = PdnsRecordV;

    open spec fn deep_view(&self) -> PdnsRecordV {
        PdnsRecordV { content: self.content@, disabled: self.disabled }
    }
}

impl DeepView for PdnsComment {
    type V = PdnsCommentV;

    open spec fn deep_view(&self) -> PdnsCommentV {
        PdnsCommentV {
            content: self.content@,
            account: self.account@,
            modified_at: self.modified_at@,
        }
    }
}

impl DeepView for PdnsRrset {
    type V = PdnsRrsetV;

    open spec fn deep_view(&self) -> PdnsRrsetV {
        PdnsRrsetV {
            name: self.name@,
            rrtype: self.rrtype@,
            ttl: self.ttl,
            changetype: self.changetype.deep_view(),
            records: self.records.deep_view(),
            comments: self.comments.deep_view(),
        }
    }
}

impl DeepView for PdnsZone {
    type V = PdnsZoneV;

    open spec fn deep_view(&self) -> PdnsZoneV {
        PdnsZoneV {
            id: self.id@,
            name: self.name@,
            zone_type: self.zone_type.deep_view(),
            kind: self.kind@,
            rrsets: self.rrsets.deep_view(),
        }
    }
}

impl DeepView for PdnsZoneCreate {
    type V = PdnsZoneCreateV;

    open spec fn deep_view(&self) -> PdnsZoneCreateV {
        PdnsZoneCreateV {
            name: self.name@,
            kind: self.kind@,
            nameservers: self.nameservers.deep_view(),
        }
    }
}

} // verus!
