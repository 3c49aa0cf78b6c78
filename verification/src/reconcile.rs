//! Record-set reconciliation: turning a client-submitted flat record list
//! into a validated, minimal RRset replace-list, while protecting the
//! server-managed SOA and apex NS records.

use vstd::prelude::*;
use crate::error::{AppError, AppErrorV};
use crate::powerdns::{PdnsRecord, PdnsRecordV, PdnsRrset, PdnsRrsetV};
use crate::text::{lower_seq, upper_seq, trim_spaces, trim, eq_ignore_ascii_case, str_eq,
    ascii_upper, seq_lt, str_lt, lemma_seq_lt_connected, lemma_seq_lt_transitive,
    lemma_seq_lt_irreflexive};

verus! {

/// One flat client-submitted record: relative or fully-qualified name, type,
/// TTL and content.
#[derive(Debug, Clone)]
pub struct RecordDto {
    pub name: String,
    pub rrtype: String,
    pub ttl: u32,
    pub content: String,
    pub priority: Option<u16>,
}

/// Spec-level view of one flat record.
#[verifier::ext_equal]
pub struct RecordDtoV {
    pub name: Seq<char>,
    pub rrtype: Seq<char>,
    pub ttl: u32,
    pub content: Seq<char>,
    pub priority: Option<u16>,
}

impl DeepView for RecordDto {
    type V = RecordDtoV;

    open spec fn deep_view(&self) -> RecordDtoV {
        RecordDtoV {
            name: self.name@,
            rrtype: self.rrtype@,
            ttl: self.ttl,
            content: self.content@,
            priority: self.priority,
        }
    }
}

/// The full record list a client submits to replace its zone's contents.
pub struct ZoneUpdateRequest {
    pub records: Vec<RecordDto>,
}

/// The owner name a record gets relative to the zone apex: empty or "@" is
/// the apex itself; a dotted name must equal the apex or be a strict
/// subdomain of it; a bare relative name is appended to the apex.
pub open spec fn spec_normalize_owner(name: Seq<char>, zone: Seq<char>) -> Result<
    Seq<char>,
    Seq<char>,
> {
    let t = trim_spaces(name);
    if t.len() == 0 || t == "@"@ {
        Ok(zone)
    } else if t[t.len() - 1] == '.' {
        if lower_seq(t) == lower_seq(zone) {
            Ok(t)
        } else if t.len() > zone.len() && lower_seq(
            t.subrange(t.len() - zone.len(), t.len() as int),
        ) == lower_seq(zone) && t[t.len() - zone.len() - 1] == '.' {
            Ok(t)
        } else {
            Err("record name must be within your zone"@)
        }
    } else {
        Ok(t + "."@ + zone)
    }
}

/// Normalize a record's owner name relative to the zone apex, rejecting
/// dotted names that escape the zone.
pub fn normalize_owner(name: &str, zone_name: &str) -> (r: Result<String, String>)
    ensures
        match r {
            Ok(s) => spec_normalize_owner(name@, zone_name@) == Ok::<Seq<char>, Seq<char>>(s@),
            Err(m) => spec_normalize_owner(name@, zone_name@) == Err::<Seq<char>, Seq<char>>(
                m@,
            ),
        },
{
    let t = trim(name);
    let tn = t.unicode_len();
    let zn = zone_name.unicode_len();
    if tn == 0 || str_eq(t, "@") {
        return Ok(String::from_str(zone_name));
    }
    if t.get_char(tn - 1) == '.' {
        if eq_ignore_ascii_case(t, zone_name) {
            return Ok(String::from_str(t));
        }
        if tn > zn {
            let suffix = t.substring_char(tn - zn, tn);
            if eq_ignore_ascii_case(suffix, zone_name) && t.get_char(tn - zn - 1) == '.' {
                return Ok(String::from_str(t));
            }
        }
        return Err(String::from_str("record name must be within your zone"));
    }
    Ok(String::from_str(t).concat(".").concat(zone_name))
}

/// A fresh one-record replace RRset for a new (owner, type) group.
pub open spec fn spec_new_rrset(
    owner: Seq<char>,
    rrtype: Seq<char>,
    ttl: u32,
    content: Seq<char>,
) -> PdnsRrsetV {
    PdnsRrsetV {
        name: owner,
        rrtype: rrtype,
        ttl: ttl,
        changetype: Some("REPLACE"@),
        records: seq![PdnsRecordV { content: content, disabled: false }],
        comments: Seq::empty(),
    }
}

/// Index of the group with the given owner and type, or -1 if there is none.
pub open spec fn find_group(gs: Seq<PdnsRrsetV>, owner: Seq<char>, rrtype: Seq<char>) -> int
    decreases gs.len(),
{
    if gs.len() == 0 {
        -1
    } else if gs[0].name == owner && gs[0].rrtype == rrtype {
        0
    } else if find_group(gs.drop_first(), owner, rrtype) == -1 {
        -1
    } else {
        1 + find_group(gs.drop_first(), owner, rrtype)
    }
}

/// `find_group` returns the first matching index, or -1 when nothing matches.
pub proof fn lemma_find_group(gs: Seq<PdnsRrsetV>, owner: Seq<char>, rrtype: Seq<char>)
    ensures
        -1 <= find_group(gs, owner, rrtype) < gs.len(),
        find_group(gs, owner, rrtype) == -1 ==> forall|j: int|
            0 <= j < gs.len() ==> !(#[trigger] gs[j].name == owner && gs[j].rrtype == rrtype),
        find_group(gs, owner, rrtype) >= 0 ==> {
            let r = find_group(gs, owner, rrtype);
            &&& gs[r].name == owner
            &&& gs[r].rrtype == rrtype
            &&& forall|j: int|
                0 <= j < r ==> !(#[trigger] gs[j].name == owner && gs[j].rrtype == rrtype)
        },
    decreases gs.len(),
{
    if gs.len() > 0 && !(gs[0].name == owner && gs[0].rrtype == rrtype) {
        lemma_find_group(gs.drop_first(), owner, rrtype);
        let rest = gs.drop_first();
        assert forall|j: int| 1 <= j < gs.len() implies gs[j] == rest[j - 1] by {}
    }
}

/// The message reported when two records of one group disagree on TTL.
pub open spec fn ttl_conflict_message(owner: Seq<char>, rrtype: Seq<char>) -> Seq<char> {
    "conflicting TTLs for "@ + owner + " "@ + rrtype
}

/// The order the emitted replace-list keeps: ascending by owner name, then
/// by record type.
pub open spec fn key_lt(n1: Seq<char>, t1: Seq<char>, n2: Seq<char>, t2: Seq<char>) -> bool {
    seq_lt(n1, n2) || (n1 == n2 && seq_lt(t1, t2))
}

/// The groups are strictly ascending by (owner, type); in particular no two
/// groups share an (owner, type) pair.
pub open spec fn groups_sorted(gs: Seq<PdnsRrsetV>) -> bool {
    forall|i: int, j: int|
        0 <= i < j < gs.len() ==> key_lt(
            (#[trigger] gs[i]).name,
            gs[i].rrtype,
            (#[trigger] gs[j]).name,
            gs[j].rrtype,
        )
}

/// Where a new (owner, type) group belongs: before the first group it
/// precedes in the (owner, type) order.
pub open spec fn insert_pos(gs: Seq<PdnsRrsetV>, owner: Seq<char>, rrtype: Seq<char>) -> int
    decreases gs.len(),
{
    if gs.len() == 0 {
        0
    } else if key_lt(owner, rrtype, gs[0].name, gs[0].rrtype) {
        0
    } else {
        1 + insert_pos(gs.drop_first(), owner, rrtype)
    }
}

/// `insert_pos` is the first position whose group the key precedes.
pub proof fn lemma_insert_pos(gs: Seq<PdnsRrsetV>, owner: Seq<char>, rrtype: Seq<char>)
    ensures
        0 <= insert_pos(gs, owner, rrtype) <= gs.len(),
        forall|j: int|
            0 <= j < insert_pos(gs, owner, rrtype) ==> !key_lt(
                owner,
                rrtype,
                (#[trigger] gs[j]).name,
                gs[j].rrtype,
            ),
        insert_pos(gs, owner, rrtype) < gs.len() ==> key_lt(
            owner,
            rrtype,
            gs[insert_pos(gs, owner, rrtype)].name,
            gs[insert_pos(gs, owner, rrtype)].rrtype,
        ),
    decreases gs.len(),
{
    if gs.len() > 0 && !key_lt(owner, rrtype, gs[0].name, gs[0].rrtype) {
        lemma_insert_pos(gs.drop_first(), owner, rrtype);
        let rest = gs.drop_first();
        assert forall|j: int| 1 <= j < gs.len() implies gs[j] == rest[j - 1] by {}
    }
}

/// If the key precedes no group before `i` and precedes the group at `i` (or
/// `i` is the end), then `i` is the insertion position.
proof fn lemma_insert_pos_at(gs: Seq<PdnsRrsetV>, owner: Seq<char>, rrtype: Seq<char>, i: int)
    requires
        0 <= i <= gs.len(),
        forall|j: int|
            0 <= j < i ==> !key_lt(owner, rrtype, (#[trigger] gs[j]).name, gs[j].rrtype),
        i < gs.len() ==> key_lt(owner, rrtype, gs[i].name, gs[i].rrtype),
    ensures
        insert_pos(gs, owner, rrtype) == i,
    decreases gs.len(),
{
    if gs.len() > 0 && !key_lt(owner, rrtype, gs[0].name, gs[0].rrtype) {
        let rest = gs.drop_first();
        assert forall|j: int| 0 <= j < i - 1 implies !key_lt(
            owner,
            rrtype,
            (#[trigger] rest[j]).name,
            rest[j].rrtype,
        ) by {
            assert(rest[j] == gs[j + 1]);
        }
        lemma_insert_pos_at(rest, owner, rrtype, i - 1);
    }
}

/// The (owner, type) order is transitive.
proof fn lemma_key_lt_transitive(
    n1: Seq<char>,
    t1: Seq<char>,
    n2: Seq<char>,
    t2: Seq<char>,
    n3: Seq<char>,
    t3: Seq<char>,
)
    requires
        key_lt(n1, t1, n2, t2),
        key_lt(n2, t2, n3, t3),
    ensures
        key_lt(n1, t1, n3, t3),
{
    if seq_lt(n1, n2) {
        if seq_lt(n2, n3) {
            lemma_seq_lt_transitive(n1, n2, n3);
        } else {
            // n2 == n3, so the names order directly
        }
    } else {
        lemma_seq_lt_irreflexive(n1);
        // n1 == n2 and seq_lt(t1, t2)
        if seq_lt(n2, n3) {
        } else {
            lemma_seq_lt_irreflexive(n2);
            lemma_seq_lt_transitive(t1, t2, t3);
        }
    }
}

/// Inserting an absent key at its position keeps the groups sorted.
proof fn lemma_insert_keeps_sorted(
    gs: Seq<PdnsRrsetV>,
    owner: Seq<char>,
    rrtype: Seq<char>,
    g: PdnsRrsetV,
)
    requires
        groups_sorted(gs),
        find_group(gs, owner, rrtype) == -1,
        g.name == owner,
        g.rrtype == rrtype,
    ensures
        groups_sorted(gs.insert(insert_pos(gs, owner, rrtype), g)),
{
    lemma_insert_pos(gs, owner, rrtype);
    lemma_find_group(gs, owner, rrtype);
    let p = insert_pos(gs, owner, rrtype);
    let gs2 = gs.insert(p, g);
    gs.insert_ensures(p, g);
    assert forall|i: int, j: int|
        0 <= i < j < gs2.len() implies key_lt(
        (#[trigger] gs2[i]).name,
        gs2[i].rrtype,
        (#[trigger] gs2[j]).name,
        gs2[j].rrtype,
    ) by {
        if i == p {
            // g against a later group: the group at p (now at p + 1) the key
            // precedes directly; later ones by transitivity
            let e = gs[j - 1];
            assert(gs2[j] == e);
            if j - 1 == p {
                assert(key_lt(owner, rrtype, e.name, e.rrtype));
            } else {
                assert(key_lt(owner, rrtype, gs[p].name, gs[p].rrtype));
                assert(key_lt(gs[p].name, gs[p].rrtype, e.name, e.rrtype));
                lemma_key_lt_transitive(
                    owner,
                    rrtype,
                    gs[p].name,
                    gs[p].rrtype,
                    e.name,
                    e.rrtype,
                );
            }
        } else if j == p {
            // an earlier group against g: its key differs, and the key does
            // not precede it, so it precedes the key
            let e = gs[i];
            assert(gs2[i] == e);
            assert(!key_lt(owner, rrtype, e.name, e.rrtype));
            assert(!(e.name == owner && e.rrtype == rrtype));
            if e.name != owner {
                lemma_seq_lt_connected(e.name, owner);
            } else {
                lemma_seq_lt_connected(e.rrtype, rrtype);
            }
        } else if i < p && j > p {
            assert(gs2[i] == gs[i] && gs2[j] == gs[j - 1]);
        } else if j < p {
            assert(gs2[i] == gs[i] && gs2[j] == gs[j]);
        } else {
            assert(gs2[i] == gs[i - 1] && gs2[j] == gs[j - 1]);
        }
    }
}

/// Add one validated record to the group accumulator: start a new group at
/// its (owner, type)-ordered position, or append to the matching group when
/// the TTL agrees.
pub open spec fn spec_add_record(
    gs: Seq<PdnsRrsetV>,
    owner: Seq<char>,
    rrtype: Seq<char>,
    ttl: u32,
    content: Seq<char>,
) -> Result<Seq<PdnsRrsetV>, AppErrorV> {
    let i = find_group(gs, owner, rrtype);
    if i < 0 {
        Ok(gs.insert(insert_pos(gs, owner, rrtype), spec_new_rrset(owner, rrtype, ttl, content)))
    } else if gs[i].ttl != ttl {
        Err(AppErrorV::BadRequest(ttl_conflict_message(owner, rrtype)))
    } else {
        Ok(
            gs.update(
                i,
                PdnsRrsetV {
                    records: gs[i].records.push(
                        PdnsRecordV { content: content, disabled: false },
                    ),
                    ..gs[i]
                },
            ),
        )
    }
}

/// The exact outcome of reconciliation, processing records in client order:
/// reject zero TTLs, out-of-zone names, SOA records, apex NS records and
/// TTL conflicts; group everything else by (owner, type).
pub open spec fn spec_reconcile_rec(
    zone: Seq<char>,
    recs: Seq<RecordDtoV>,
    gs: Seq<PdnsRrsetV>,
) -> Result<Seq<PdnsRrsetV>, AppErrorV>
    decreases recs.len(),
{
    if recs.len() == 0 {
        Ok(gs)
    } else {
        let rec = recs[0];
        if rec.ttl == 0 {
            Err(AppErrorV::BadRequest("ttl must be greater than 0"@))
        } else {
            match spec_normalize_owner(rec.name, zone) {
                Err(m) => Err(AppErrorV::BadRequest(m)),
                Ok(owner) => {
                    let t = upper_seq(rec.rrtype);
                    if t == "SOA"@ {
                        Err(
                            AppErrorV::BadRequest(
                                "SOA records are managed automatically and cannot be modified"@,
                            ),
                        )
                    } else if t == "NS"@ && lower_seq(owner) == lower_seq(zone) {
                        Err(
                            AppErrorV::BadRequest(
                                "apex NS records must be managed via NS-mode endpoints"@,
                            ),
                        )
                    } else {
                        match spec_add_record(gs, owner, t, rec.ttl, rec.content) {
                            Err(e) => Err(e),
                            Ok(gs2) => spec_reconcile_rec(zone, recs.drop_first(), gs2),
                        }
                    }
                },
            }
        }
    }
}

/// Reconciliation of a whole submission, starting from no groups.
pub open spec fn spec_reconcile(zone: Seq<char>, recs: Seq<RecordDtoV>) -> Result<
    Seq<PdnsRrsetV>,
    AppErrorV,
> {
    spec_reconcile_rec(zone, recs, Seq::empty())
}

/// Index of the group matching (owner, rrtype) in `groups`, if any.
fn find_group_exec(groups: &Vec<PdnsRrset>, owner: &String, rrtype: &String) -> (r: Option<
    usize,
>)
    ensures
        match r {
            Some(i) => i < groups.len() && find_group(groups.deep_view(), owner@, rrtype@)
                == i as int,
            None => find_group(groups.deep_view(), owner@, rrtype@) == -1,
        },
{
    proof {
        lemma_find_group(groups.deep_view(), owner@, rrtype@);
    }
    let n = groups.len();
    let mut i: usize = 0;
    while i < n
        invariant
            n == groups.len(),
            i <= n,
            forall|j: int|
                0 <= j < i ==> !(#[trigger] groups.deep_view()[j].name == owner@
                    && groups.deep_view()[j].rrtype == rrtype@),
        decreases n - i,
    {
        if str_eq(groups[i].name.as_str(), owner.as_str()) && str_eq(
            groups[i].rrtype.as_str(),
            rrtype.as_str(),
        ) {
            proof {
                lemma_find_group(groups.deep_view(), owner@, rrtype@);
                let r = find_group(groups.deep_view(), owner@, rrtype@);
                assert(groups.deep_view()[i as int].name == owner@);
                if r < i as int {
                    assert(!(groups.deep_view()[r].name == owner@
                        && groups.deep_view()[r].rrtype == rrtype@));
                }
            }
            return Some(i);
        }
        i = i + 1;
    }
    proof {
        lemma_find_group(groups.deep_view(), owner@, rrtype@);
        let r = find_group(groups.deep_view(), owner@, rrtype@);
        if r >= 0 {
            assert(!(groups.deep_view()[r].name == owner@ && groups.deep_view()[r].rrtype
                == rrtype@));
        }
    }
    None
}

/// The position where a new (owner, rrtype) group must be inserted to keep
/// the list ascending.
fn find_insert_pos(groups: &Vec<PdnsRrset>, owner: &String, rrtype: &String) -> (r: usize)
    ensures
        r <= groups.len(),
        r as int == insert_pos(groups.deep_view(), owner@, rrtype@),
{
    let n = groups.len();
    let mut i: usize = 0;
    while i < n
        invariant
            n == groups.len(),
            i <= n,
            forall|j: int|
                0 <= j < i ==> !key_lt(
                    owner@,
                    rrtype@,
                    (#[trigger] groups.deep_view()[j]).name,
                    groups.deep_view()[j].rrtype,
                ),
        decreases n - i,
    {
        let gname = groups[i].name.as_str();
        let gtype = groups[i].rrtype.as_str();
        let lt = str_lt(owner.as_str(), gname) || (str_eq(owner.as_str(), gname) && str_lt(
            rrtype.as_str(),
            gtype,
        ));
        proof {
            assert(lt == key_lt(
                owner@,
                rrtype@,
                groups.deep_view()[i as int].name,
                groups.deep_view()[i as int].rrtype,
            ));
        }
        if lt {
            proof {
                lemma_insert_pos_at(groups.deep_view(), owner@, rrtype@, i as int);
            }
            return i;
        }
        i = i + 1;
    }
    proof {
        lemma_insert_pos_at(groups.deep_view(), owner@, rrtype@, n as int);
    }
    n
}

/// Sortedness is preserved as the reconciler folds records into groups.
proof fn lemma_reconcile_rec_sorted(zone: Seq<char>, recs: Seq<RecordDtoV>, gs: Seq<PdnsRrsetV>)
    requires
        groups_sorted(gs),
    ensures
        spec_reconcile_rec(zone, recs, gs) matches Ok(out) ==> groups_sorted(out),
    decreases recs.len(),
{
    if recs.len() > 0 {
        let rec = recs[0];
        if rec.ttl != 0 {
            match spec_normalize_owner(rec.name, zone) {
                Err(m) => {},
                Ok(owner) => {
                    let t = upper_seq(rec.rrtype);
                    if t != "SOA"@ && !(t == "NS"@ && lower_seq(owner) == lower_seq(zone)) {
                        match spec_add_record(gs, owner, t, rec.ttl, rec.content) {
                            Err(e) => {},
                            Ok(gs2) => {
                                lemma_find_group(gs, owner, t);
                                let i = find_group(gs, owner, t);
                                if i < 0 {
                                    lemma_insert_keeps_sorted(
                                        gs,
                                        owner,
                                        t,
                                        spec_new_rrset(owner, t, rec.ttl, rec.content),
                                    );
                                } else {
                                    assert forall|a: int, b: int|
                                        0 <= a < b < gs2.len() implies key_lt(
                                        (#[trigger] gs2[a]).name,
                                        gs2[a].rrtype,
                                        (#[trigger] gs2[b]).name,
                                        gs2[b].rrtype,
                                    ) by {
                                        assert(gs2[a].name == gs[a].name && gs2[a].rrtype
                                            == gs[a].rrtype);
                                        assert(gs2[b].name == gs[b].name && gs2[b].rrtype
                                            == gs[b].rrtype);
                                    }
                                }
                                lemma_reconcile_rec_sorted(zone, recs.drop_first(), gs2);
                            },
                        }
                    }
                },
            }
        }
    }
}

/// Every replace-list the reconciler emits is strictly ascending by
/// (owner name, record type): a canonical replace-set with no duplicate
/// (owner, type) pairs, so the emitted order does not depend on the order
/// the client's records arrived in.
pub proof fn lemma_reconcile_sorted(zone: Seq<char>, recs: Seq<RecordDtoV>)
    ensures
        spec_reconcile(zone, recs) matches Ok(gs) ==> groups_sorted(gs),
{
    lemma_reconcile_rec_sorted(zone, recs, Seq::empty());
}

/// Translate a client-submitted flat record list into a minimal, validated
/// RRset replace-list for the zone — ascending by (owner, type) — or the
/// first rejection in client order.
pub fn reconcile_records(zone_name: &str, records: &Vec<RecordDto>) -> (r: Result<
    Vec<PdnsRrset>,
    AppError,
>)
    ensures
        match r {
            Ok(v) => spec_reconcile(zone_name@, records.deep_view()) == Ok::<
                Seq<PdnsRrsetV>,
                AppErrorV,
            >(v.deep_view()) && groups_sorted(v.deep_view()),
            Err(e) => spec_reconcile(zone_name@, records.deep_view()) == Err::<
                Seq<PdnsRrsetV>,
                AppErrorV,
            >(e.deep_view()),
        },
{
    proof {
        lemma_reconcile_sorted(zone_name@, records.deep_view());
    }
    let ghost recsv = records.deep_view();
    let mut groups: Vec<PdnsRrset> = Vec::new();
    proof {
        assert(recsv.skip(0) =~= recsv);
        assert(groups.deep_view() =~= Seq::<PdnsRrsetV>::empty());
    }
    let n = records.len();
    let mut k: usize = 0;
    while k < n
        invariant
            recsv == records.deep_view(),
            n == records.len(),
            k <= n,
            spec_reconcile(zone_name@, recsv) == spec_reconcile_rec(
                zone_name@,
                recsv.skip(k as int),
                groups.deep_view(),
            ),
        decreases n - k,
    {
        proof {
            assert(recsv.skip(k as int)[0] == recsv[k as int]);
            assert(recsv.skip(k as int).drop_first() =~= recsv.skip(k + 1));
        }
        let rec = &records[k];
        if rec.ttl == 0 {
            return Err(AppError::bad_request("ttl must be greater than 0"));
        }
        let owner = match normalize_owner(rec.name.as_str(), zone_name) {
            Ok(o) => o,
            Err(m) => {
                return Err(AppError::BadRequest(m));
            },
        };
        let t = ascii_upper(rec.rrtype.as_str());
        if str_eq(t.as_str(), "SOA") {
            return Err(
                AppError::bad_request(
                    "SOA records are managed automatically and cannot be modified",
                ),
            );
        }
        if str_eq(t.as_str(), "NS") && eq_ignore_ascii_case(owner.as_str(), zone_name) {
            return Err(
                AppError::bad_request("apex NS records must be managed via NS-mode endpoints"),
            );
        }
        let ghost prev_gs = groups.deep_view();
        match find_group_exec(&groups, &owner, &t) {
            None => {
                let pos = find_insert_pos(&groups, &owner, &t);
                let ghost ownerv = owner@;
                let ghost tv = t@;
                let mut recs_one: Vec<PdnsRecord> = Vec::new();
                recs_one.push(PdnsRecord { content: rec.content.clone(), disabled: false });
                let g = PdnsRrset {
                    name: owner,
                    rrtype: t,
                    ttl: rec.ttl,
                    changetype: Some(String::from_str("REPLACE")),
                    records: recs_one,
                    comments: Vec::new(),
                };
                proof {
                    assert(g.deep_view() =~~= spec_new_rrset(
                        ownerv,
                        tv,
                        rec.ttl,
                        rec.content@,
                    ));
                }
                let ghost prevv = groups;
                groups.insert(pos, g);
                proof {
                    let p = pos as int;
                    let newv = spec_new_rrset(ownerv, tv, recsv[k as int].ttl, recsv[
                        k as int].content);
                    prev_gs.insert_ensures(p, newv);
                    prevv@.insert_ensures(p, g);
                    assert forall|l: int|
                        0 <= l < groups.deep_view().len() implies groups.deep_view()[l]
                        == prev_gs.insert(p, newv)[l] by {
                        if l < p {
                            assert(groups@[l] == prevv@[l]);
                        } else if l == p {
                            assert(groups@[l] == g);
                        } else {
                            assert(groups@[l] == prevv@[l - 1]);
                        }
                    }
                    assert(groups.deep_view() =~~= prev_gs.insert(p, newv));
                }
            },
            Some(idx) => {
                if groups[idx].ttl != rec.ttl {
                    let msg = String::from_str("conflicting TTLs for ").concat(
                        owner.as_str(),
                    ).concat(" ").concat(t.as_str());
                    return Err(AppError::BadRequest(msg));
                }
                let mut g = groups.remove(idx);
                let ghost gv = g.deep_view();
                g.records.push(PdnsRecord { content: rec.content.clone(), disabled: false });
                proof {
                    assert(g.deep_view() =~~= PdnsRrsetV {
                        records: gv.records.push(
                            PdnsRecordV { content: recsv[k as int].content, disabled: false },
                        ),
                        ..gv
                    });
                }
                groups.insert(idx, g);
                proof {
                    assert(gv == prev_gs[idx as int]);
                    assert(groups.deep_view() =~~= prev_gs.update(
                        idx as int,
                        PdnsRrsetV {
                            records: prev_gs[idx as int].records.push(
                                PdnsRecordV {
                                    content: recsv[k as int].content,
                                    disabled: false,
                                },
                            ),
                            ..prev_gs[idx as int]
                        },
                    ));
                }
            },
        }
        k = k + 1;
    }
    proof {
        assert(recsv.skip(n as int) =~= Seq::<RecordDtoV>::empty());
    }
    Ok(groups)
}

/// Reconciliation is a pure function of its input: the same zone apex and
/// record list always yield the identical RRset replace-list, so reconciling
/// twice changes nothing.
pub proof fn lemma_reconcile_deterministic(
    zone1: Seq<char>,
    recs1: Seq<RecordDtoV>,
    zone2: Seq<char>,
    recs2: Seq<RecordDtoV>,
)
    requires
        zone1 == zone2,
        recs1 == recs2,
    ensures
        spec_reconcile(zone1, recs1) == spec_reconcile(zone2, recs2),
{
}

/// A submission whose record `i` is protected — an SOA record, or an NS
/// record owned by the zone apex — is rejected from any accumulator state.
proof fn lemma_reconcile_rec_rejects_protected(
    zone: Seq<char>,
    recs: Seq<RecordDtoV>,
    gs: Seq<PdnsRrsetV>,
    i: int,
)
    requires
        0 <= i < recs.len(),
        upper_seq(recs[i].rrtype) == "SOA"@ || (upper_seq(recs[i].rrtype) == "NS"@ && match
            spec_normalize_owner(recs[i].name, zone) {
                Ok(o) => lower_seq(o) == lower_seq(zone),
                Err(m) => true,
            }),
    ensures
        spec_reconcile_rec(zone, recs, gs) is Err,
    decreases recs.len(),
{
    let rec = recs[0];
    if i == 0 {
        // the first record itself fails one of the checks before grouping
    } else if rec.ttl != 0 {
        match spec_normalize_owner(rec.name, zone) {
            Err(m) => {},
            Ok(owner) => {
                let t = upper_seq(rec.rrtype);
                if t != "SOA"@ && !(t == "NS"@ && lower_seq(owner) == lower_seq(zone)) {
                    match spec_add_record(gs, owner, t, rec.ttl, rec.content) {
                        Err(e) => {},
                        Ok(gs2) => {
                            assert(recs.drop_first()[i - 1] == recs[i]);
                            lemma_reconcile_rec_rejects_protected(
                                zone,
                                recs.drop_first(),
                                gs2,
                                i - 1,
                            );
                        },
                    }
                }
            },
        }
    }
}

/// Any submission containing an SOA record is rejected, whatever else it
/// holds: SOA records are server-managed.
pub proof fn lemma_reconcile_rejects_soa(zone: Seq<char>, recs: Seq<RecordDtoV>, i: int)
    requires
        0 <= i < recs.len(),
        upper_seq(recs[i].rrtype) == "SOA"@,
    ensures
        spec_reconcile(zone, recs) is Err,
{
    lemma_reconcile_rec_rejects_protected(zone, recs, Seq::empty(), i);
}

/// Any submission containing an NS record owned by the zone apex is
/// rejected, whatever else it holds: the apex NS is managed only through the
/// delegation-switch workflow.
pub proof fn lemma_reconcile_rejects_apex_ns(zone: Seq<char>, recs: Seq<RecordDtoV>, i: int)
    requires
        0 <= i < recs.len(),
        upper_seq(recs[i].rrtype) == "NS"@,
        match spec_normalize_owner(recs[i].name, zone) {
            Ok(o) => lower_seq(o) == lower_seq(zone),
            Err(m) => true,
        },
    ensures
        spec_reconcile(zone, recs) is Err,
{
    lemma_reconcile_rec_rejects_protected(zone, recs, Seq::empty(), i);
}

/// Whether a fetched RRset is shown to the zone owner: the server-managed SOA
/// and the apex NS records are kept back.
pub open spec fn keep_rrset(rr: PdnsRrsetV, zone: Seq<char>) -> bool {
    &&& lower_seq(rr.rrtype) != lower_seq("SOA"@)
    &&& !(lower_seq(rr.rrtype) == lower_seq("NS"@) && lower_seq(rr.name) == lower_seq(zone))
}

/// The flat records of one RRset.
pub open spec fn rrset_dtos(rr: PdnsRrsetV) -> Seq<RecordDtoV> {
    Seq::new(
        rr.records.len(),
        |i: int|
            RecordDtoV {
                name: rr.name,
                rrtype: rr.rrtype,
                ttl: rr.ttl,
                content: rr.records[i].content,
                priority: None,
            },
    )
}

/// The flat record list a zone owner sees: every record of every RRset except
/// the apex SOA and NS, in server order.
pub open spec fn spec_zone_records(rs: Seq<PdnsRrsetV>, zone: Seq<char>) -> Seq<RecordDtoV>
    decreases rs.len(),
{
    if rs.len() == 0 {
        Seq::empty()
    } else {
        (if keep_rrset(rs[0], zone) {
            rrset_dtos(rs[0])
        } else {
            Seq::empty()
        }) + spec_zone_records(rs.drop_first(), zone)
    }
}

/// Flatten a fetched zone into the owner-visible record list, keeping the
/// apex SOA and NS under server control.
pub fn zone_records(zone_name: &str, rrsets: &Option<Vec<PdnsRrset>>) -> (r: Vec<RecordDto>)
    ensures
        match rrsets.deep_view() {
            None => r.deep_view() == Seq::<RecordDtoV>::empty(),
            Some(rs) => r.deep_view() == spec_zone_records(rs, zone_name@),
        },
{
    let mut out: Vec<RecordDto> = Vec::new();
    match rrsets {
        None => out,
        Some(rs) => {
            proof {
                assert(rrsets.deep_view() == Some(rs.deep_view()));
                assert(rs.deep_view().skip(0) =~= rs.deep_view());
                assert(out.deep_view() =~= Seq::<RecordDtoV>::empty());
                assert(out.deep_view() + spec_zone_records(rs.deep_view(), zone_name@)
                    =~= spec_zone_records(rs.deep_view(), zone_name@));
            }
            let n = rs.len();
            let mut i: usize = 0;
            while i < n
                invariant
                    rrsets.deep_view() == Some(rs.deep_view()),
                    n == rs.len(),
                    i <= n,
                    spec_zone_records(rs.deep_view(), zone_name@) == out.deep_view()
                        + spec_zone_records(rs.deep_view().skip(i as int), zone_name@),
                decreases n - i,
            {
                proof {
                    assert(rs.deep_view().skip(i as int)[0] == rs.deep_view()[i as int]);
                    assert(rs.deep_view().skip(i as int).drop_first() =~= rs.deep_view().skip(
                        i + 1,
                    ));
                }
                let ghost rrv = rs.deep_view()[i as int];
                let ghost before = out.deep_view();
                let rr = &rs[i];
                let keep = !eq_ignore_ascii_case(rr.rrtype.as_str(), "SOA") && !(
                eq_ignore_ascii_case(rr.rrtype.as_str(), "NS") && eq_ignore_ascii_case(
                    rr.name.as_str(),
                    zone_name,
                ));
                if keep {
                    let m = rr.records.len();
                    let mut j: usize = 0;
                    while j < m
                        invariant
                            rrsets.deep_view() == Some(rs.deep_view()),
                            n == rs.len(),
                            i < n,
                            rrv == rs.deep_view()[i as int],
                            m == rs@[i as int].records.len(),
                            j <= m,
                            out.deep_view() == before + rrset_dtos(rrv).subrange(0, j as int),
                        decreases m - j,
                    {
                        let ghost prev = out.deep_view();
                        let rec = &rs[i].records[j];
                        out.push(
                            RecordDto {
                                name: rs[i].name.clone(),
                                rrtype: rs[i].rrtype.clone(),
                                ttl: rs[i].ttl,
                                content: rec.content.clone(),
                                priority: None,
                            },
                        );
                        proof {
                            assert(out.deep_view() =~~= prev.push(rrset_dtos(rrv)[j as int]));
                            assert(out.deep_view() =~~= before + rrset_dtos(rrv).subrange(
                                0,
                                j + 1,
                            ));
                        }
                        j = j + 1;
                    }
                    proof {
                        assert(rrset_dtos(rrv).subrange(0, m as int) =~= rrset_dtos(rrv));
                        assert(out.deep_view() + spec_zone_records(
                            rs.deep_view().skip(i + 1),
                            zone_name@,
                        ) =~= before + spec_zone_records(rs.deep_view().skip(i as int), zone_name@));
                    }
                } else {
                    proof {
                        assert(spec_zone_records(rs.deep_view().skip(i as int), zone_name@)
                            =~= Seq::<RecordDtoV>::empty() + spec_zone_records(
                            rs.deep_view().skip(i + 1),
                            zone_name@,
                        ));
                        assert(Seq::<RecordDtoV>::empty() + spec_zone_records(
                            rs.deep_view().skip(i + 1),
                            zone_name@,
                        ) =~= spec_zone_records(rs.deep_view().skip(i + 1), zone_name@));
                    }
                }
                i = i + 1;
            }
            proof {
                assert(rs.deep_view().skip(n as int) =~= Seq::<PdnsRrsetV>::empty());
                assert(out.deep_view() + Seq::<RecordDtoV>::empty() =~= out.deep_view());
            }
            out
        },
    }
}

} // verus!
