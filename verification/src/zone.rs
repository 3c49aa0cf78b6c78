//! Pure views over fetched zone data: name normalization, occupancy checks,
//! delegation listing and counting, and SOA lookup.

use vstd::prelude::*;
use crate::powerdns::{PdnsRrset, PdnsRrsetV};
use crate::text::{lower_seq, trim_dots, ascii_lower, trim_end_dots, eq_ignore_ascii_case, str_eq,
    seq_lt, str_lt, lemma_seq_lt_connected, lemma_seq_lt_transitive};

verus! {

/// Grouping of delegated name to NS targets, as listed publicly.
#[derive(Debug)]
pub struct SubdomainListResponse {
    pub name: String,
    pub records: Vec<String>,
}

/// Spec-level view of one delegation listing entry.
#[verifier::ext_equal]
pub struct SubdomainListV {
    pub name: Seq<char>,
    pub records: Seq<Seq<char>>,
}

impl DeepView for SubdomainListResponse {
    type V = SubdomainListV;

    open spec fn deep_view(&self) -> SubdomainListV {
        SubdomainListV { name: self.name@, records: self.records.deep_view() }
    }
}

/// A DNS name in comparison form: trailing dots removed, ASCII-lowercased.
pub open spec fn norm_name(s: Seq<char>) -> Seq<char> {
    lower_seq(trim_dots(s))
}

/// Normalize a DNS name by trimming its trailing dots and lowercasing.
pub fn normalize_dns_name(name: &str) -> (r: String)
    ensures
        r@ == norm_name(name@),
{
    ascii_lower(trim_end_dots(name))
}

/// Whether some RRset in the fetched parent zone owns the desired name.
pub open spec fn spec_dns_occupied(rrsets: Option<Seq<PdnsRrsetV>>, desired: Seq<char>) -> bool {
    match rrsets {
        None => false,
        Some(rs) => exists|i: int|
            0 <= i < rs.len() && norm_name(#[trigger] rs[i].name) == norm_name(desired),
    }
}

/// Inspect a fetched zone to determine if `desired_zone` already has any
/// RRsets, comparing names in normalized form.
pub fn dns_label_occupied(rrsets: &Option<Vec<PdnsRrset>>, desired_zone: &str) -> (r: bool)
    ensures
        r == spec_dns_occupied(rrsets.deep_view(), desired_zone@),
{
    match rrsets {
        None => false,
        Some(rs) => {
            proof {
                assert(rrsets.deep_view() == Some(rs.deep_view()));
            }
            let desired = normalize_dns_name(desired_zone);
            let n = rs.len();
            let mut i: usize = 0;
            while i < n
                invariant
                    rrsets.deep_view() == Some(rs.deep_view()),
                    n == rs.len(),
                    i <= n,
                    desired@ == norm_name(desired_zone@),
                    forall|j: int|
                        0 <= j < i ==> norm_name(#[trigger] rs.deep_view()[j].name)
                            != norm_name(desired_zone@),
                decreases n - i,
            {
                let owner = normalize_dns_name(rs[i].name.as_str());
                if owner == desired {
                    proof {
                        assert(norm_name(rs.deep_view()[i as int].name) == norm_name(
                            desired_zone@,
                        ));
                    }
                    return true;
                }
                i = i + 1;
            }
            false
        },
    }
}

/// The SOA content found for a zone: the first record of the first RRset of
/// type SOA whose owner is the zone itself.
pub open spec fn spec_find_zone_soa(rs: Seq<PdnsRrsetV>, zone: Seq<char>) -> Option<Seq<char>>
    decreases rs.len(),
{
    if rs.len() == 0 {
        None
    } else if lower_seq(rs[0].rrtype) == lower_seq("SOA"@) && norm_name(rs[0].name) == norm_name(
        zone,
    ) && rs[0].records.len() > 0 {
        Some(rs[0].records[0].content)
    } else {
        spec_find_zone_soa(rs.drop_first(), zone)
    }
}

/// Find the zone's own SOA record content in a fetched RRset list.
pub fn find_zone_soa(rrsets: &Option<Vec<PdnsRrset>>, zone: &str) -> (r: Option<String>)
    ensures
        match rrsets.deep_view() {
            None => r is None,
            Some(rs) => match r {
                Some(s) => spec_find_zone_soa(rs, zone@) == Some(s@),
                None => spec_find_zone_soa(rs, zone@) is None,
            },
        },
{
    match rrsets {
        None => None,
        Some(rs) => {
            proof {
                assert(rrsets.deep_view() == Some(rs.deep_view()));
                assert(rs.deep_view().skip(0) =~= rs.deep_view());
            }
            let n = rs.len();
            let mut i: usize = 0;
            while i < n
                invariant
                    rrsets.deep_view() == Some(rs.deep_view()),
                    n == rs.len(),
                    i <= n,
                    spec_find_zone_soa(rs.deep_view(), zone@) == spec_find_zone_soa(
                        rs.deep_view().skip(i as int),
                        zone@,
                    ),
                decreases n - i,
            {
                proof {
                    assert(rs.deep_view().skip(i as int)[0] == rs.deep_view()[i as int]);
                }
                let rr = &rs[i];
                if eq_ignore_ascii_case(rr.rrtype.as_str(), "SOA") && {
                    let owner = normalize_dns_name(rr.name.as_str());
                    let z = normalize_dns_name(zone);
                    owner == z
                } && rr.records.len() > 0 {
                    let content = rs[i].records[0].content.clone();
                    proof {
                        let rsv = rs.deep_view();
                        assert(rsv[i as int].records[0] == rs@[i as int].records.deep_view()[0]);
                        assert(spec_find_zone_soa(rsv.skip(i as int), zone@) == Some(
                            rsv[i as int].records[0].content,
                        ));
                    }
                    return Some(content);
                }
                proof {
                    assert(rs.deep_view().skip(i as int).drop_first() =~= rs.deep_view().skip(
                        i + 1,
                    ));
                }
                i = i + 1;
            }
            proof {
                assert(rs.deep_view().skip(n as int) =~= Seq::<PdnsRrsetV>::empty());
            }
            None
        },
    }
}

/// The set of delegated child names in a parent zone: normalized owners of NS
/// RRsets other than the parent apex itself.
pub open spec fn spec_delegation_names(
    rs: Seq<PdnsRrsetV>,
    parent: Seq<char>,
    acc: Set<Seq<char>>,
) -> Set<Seq<char>>
    decreases rs.len(),
{
    if rs.len() == 0 {
        acc
    } else {
        let acc1 = if lower_seq(rs[0].rrtype) == lower_seq("NS"@) && norm_name(rs[0].name)
            != norm_name(parent) {
            acc.insert(norm_name(rs[0].name))
        } else {
            acc
        };
        spec_delegation_names(rs.drop_first(), parent, acc1)
    }
}

/// Pushing an element extends the sequence's set of values by exactly it.
proof fn lemma_push_to_set<A>(s: Seq<A>, e: A)
    ensures
        s.push(e).to_set() =~= s.to_set().insert(e),
{
    assert forall|x: A| s.push(e).to_set().contains(x) implies s.to_set().insert(e).contains(
        x,
    ) by {
        let i = choose|i: int| 0 <= i < s.push(e).len() && s.push(e)[i] == x;
        if i < s.len() {
            assert(s[i] == x);
        }
    }
    assert forall|x: A| s.to_set().insert(e).contains(x) implies s.push(e).to_set().contains(
        x,
    ) by {
        if x == e {
            assert(s.push(e)[s.len() as int] == x);
        } else {
            let i = choose|i: int| 0 <= i < s.len() && s[i] == x;
            assert(s.push(e)[i] == x);
        }
    }
}

/// Pushing a fresh element preserves distinctness.
proof fn lemma_push_no_dup<A>(s: Seq<A>, e: A)
    requires
        s.no_duplicates(),
        !s.contains(e),
    ensures
        s.push(e).no_duplicates(),
{
    assert forall|i: int, j: int|
        0 <= i < s.push(e).len() && 0 <= j < s.push(e).len() && i != j implies s.push(e)[i]
        != s.push(e)[j] by {
        if i < s.len() && j < s.len() {
            assert(s[i] == s.push(e)[i] && s[j] == s.push(e)[j]);
        } else if i < s.len() {
            assert(s.push(e)[j] == e);
            if s.push(e)[i] == e {
                assert(s[i] == e);
                assert(s.contains(e));
            }
        } else {
            assert(s.push(e)[i] == e);
            if s.push(e)[j] == e {
                assert(s[j] == e);
                assert(s.contains(e));
            }
        }
    }
}

/// Whether `v` holds an element equal to `s`.
fn vec_contains_str(v: &Vec<String>, s: &String) -> (r: bool)
    ensures
        r == v.deep_view().contains(s@),
{
    let n = v.len();
    let mut i: usize = 0;
    while i < n
        invariant
            n == v.len(),
            i <= n,
            forall|j: int| 0 <= j < i ==> v.deep_view()[j] != s@,
        decreases n - i,
    {
        if crate::text::str_eq(v[i].as_str(), s.as_str()) {
            proof {
                assert(v.deep_view()[i as int] == s@);
            }
            return true;
        }
        i = i + 1;
    }
    proof {
        if v.deep_view().contains(s@) {
            let j = choose|j: int| 0 <= j < v.deep_view().len() && v.deep_view()[j] == s@;
            assert(v.deep_view()[j] != s@);
        }
    }
    false
}

/// Count the distinct delegated child names under a parent zone.
pub fn count_delegations(rrsets: &Option<Vec<PdnsRrset>>, parent_zone: &str) -> (r: usize)
    ensures
        match rrsets.deep_view() {
            None => r == 0,
            Some(rs) => r == spec_delegation_names(rs, parent_zone@, Set::empty()).len(),
        },
{
    match rrsets {
        None => 0,
        Some(rs) => {
            proof {
                assert(rrsets.deep_view() == Some(rs.deep_view()));
                assert(rs.deep_view().skip(0) =~= rs.deep_view());
            }
            let parent = normalize_dns_name(parent_zone);
            let mut seen: Vec<String> = Vec::new();
            proof {
                assert(seen.deep_view() =~= Seq::<Seq<char>>::empty());
                assert(seen.deep_view().to_set() =~= Set::<Seq<char>>::empty());
            }
            let n = rs.len();
            let mut i: usize = 0;
            while i < n
                invariant
                    n == rs.len(),
                    i <= n,
                    parent@ == norm_name(parent_zone@),
                    seen.deep_view().no_duplicates(),
                    spec_delegation_names(rs.deep_view(), parent_zone@, Set::empty())
                        == spec_delegation_names(
                        rs.deep_view().skip(i as int),
                        parent_zone@,
                        seen.deep_view().to_set(),
                    ),
                decreases n - i,
            {
                proof {
                    assert(rs.deep_view().skip(i as int)[0] == rs.deep_view()[i as int]);
                    assert(rs.deep_view().skip(i as int).drop_first() =~= rs.deep_view().skip(
                        i + 1,
                    ));
                }
                let rr = &rs[i];
                if eq_ignore_ascii_case(rr.rrtype.as_str(), "NS") {
                    let owner = normalize_dns_name(rr.name.as_str());
                    if !(owner == parent) {
                        if !vec_contains_str(&seen, &owner) {
                            let ghost prev = seen;
                            let ghost e = norm_name(rs.deep_view()[i as int].name);
                            proof {
                                assert(owner@ == e);
                            }
                            seen.push(owner);
                            proof {
                                assert(seen.deep_view() =~= prev.deep_view().push(e));
                                lemma_push_no_dup(prev.deep_view(), e);
                                lemma_push_to_set(prev.deep_view(), e);
                            }
                        } else {
                            proof {
                                let e = norm_name(rs.deep_view()[i as int].name);
                                assert(seen.deep_view().to_set().contains(e));
                                assert(seen.deep_view().to_set() =~= seen.deep_view().to_set()
                                    .insert(e));
                            }
                        }
                    }
                }
                i = i + 1;
            }
            proof {
                assert(rs.deep_view().skip(n as int) =~= Seq::<PdnsRrsetV>::empty());
                seen.deep_view().unique_seq_to_set();
            }
            seen.len()
        },
    }
}

/// Index of the listing entry with the given name, or -1 if there is none.
pub open spec fn find_listing(gs: Seq<SubdomainListV>, name: Seq<char>) -> int
    decreases gs.len(),
{
    if gs.len() == 0 {
        -1
    } else if gs[0].name == name {
        0
    } else if find_listing(gs.drop_first(), name) == -1 {
        -1
    } else {
        1 + find_listing(gs.drop_first(), name)
    }
}

/// `find_listing` returns the first matching index, or -1 when nothing matches.
pub proof fn lemma_find_listing(gs: Seq<SubdomainListV>, name: Seq<char>)
    ensures
        -1 <= find_listing(gs, name) < gs.len(),
        find_listing(gs, name) == -1 ==> forall|j: int|
            0 <= j < gs.len() ==> (#[trigger] gs[j].name) != name,
        find_listing(gs, name) >= 0 ==> {
            let r = find_listing(gs, name);
            &&& gs[r].name == name
            &&& forall|j: int| 0 <= j < r ==> (#[trigger] gs[j].name) != name
        },
    decreases gs.len(),
{
    if gs.len() > 0 && gs[0].name != name {
        lemma_find_listing(gs.drop_first(), name);
        let rest = gs.drop_first();
        assert forall|j: int| 1 <= j < gs.len() implies gs[j] == rest[j - 1] by {}
    }
}

/// The record contents of one RRset.
pub open spec fn rrset_contents(rr: PdnsRrsetV) -> Seq<Seq<char>> {
    Seq::new(rr.records.len(), |i: int| rr.records[i].content)
}

/// The listing is strictly ascending by owner name; in particular no owner
/// appears twice.
pub open spec fn listing_sorted(gs: Seq<SubdomainListV>) -> bool {
    forall|i: int, j: int|
        0 <= i < j < gs.len() ==> seq_lt((#[trigger] gs[i]).name, (#[trigger] gs[j]).name)
}

/// Where a new owner belongs in the listing: before the first entry whose
/// name it precedes.
pub open spec fn listing_insert_pos(gs: Seq<SubdomainListV>, name: Seq<char>) -> int
    decreases gs.len(),
{
    if gs.len() == 0 {
        0
    } else if seq_lt(name, gs[0].name) {
        0
    } else {
        1 + listing_insert_pos(gs.drop_first(), name)
    }
}

/// `listing_insert_pos` is the first position whose entry the name precedes.
pub proof fn lemma_listing_insert_pos(gs: Seq<SubdomainListV>, name: Seq<char>)
    ensures
        0 <= listing_insert_pos(gs, name) <= gs.len(),
        forall|j: int|
            0 <= j < listing_insert_pos(gs, name) ==> !seq_lt(name, (#[trigger] gs[j]).name),
        listing_insert_pos(gs, name) < gs.len() ==> seq_lt(
            name,
            gs[listing_insert_pos(gs, name)].name,
        ),
    decreases gs.len(),
{
    if gs.len() > 0 && !seq_lt(name, gs[0].name) {
        lemma_listing_insert_pos(gs.drop_first(), name);
        let rest = gs.drop_first();
        assert forall|j: int| 1 <= j < gs.len() implies gs[j] == rest[j - 1] by {}
    }
}

/// If the name precedes no entry before `i` and precedes the entry at `i`
/// (or `i` is the end), then `i` is the insertion position.
proof fn lemma_listing_insert_pos_at(gs: Seq<SubdomainListV>, name: Seq<char>, i: int)
    requires
        0 <= i <= gs.len(),
        forall|j: int| 0 <= j < i ==> !seq_lt(name, (#[trigger] gs[j]).name),
        i < gs.len() ==> seq_lt(name, gs[i].name),
    ensures
        listing_insert_pos(gs, name) == i,
    decreases gs.len(),
{
    if gs.len() > 0 && !seq_lt(name, gs[0].name) {
        let rest = gs.drop_first();
        assert forall|j: int| 0 <= j < i - 1 implies !seq_lt(
            name,
            (#[trigger] rest[j]).name,
        ) by {
            assert(rest[j] == gs[j + 1]);
        }
        lemma_listing_insert_pos_at(rest, name, i - 1);
    }
}

/// Inserting an absent owner at its position keeps the listing sorted.
proof fn lemma_listing_insert_keeps_sorted(
    gs: Seq<SubdomainListV>,
    name: Seq<char>,
    entry: SubdomainListV,
)
    requires
        listing_sorted(gs),
        find_listing(gs, name) == -1,
        entry.name == name,
    ensures
        listing_sorted(gs.insert(listing_insert_pos(gs, name), entry)),
{
    lemma_listing_insert_pos(gs, name);
    lemma_find_listing(gs, name);
    let p = listing_insert_pos(gs, name);
    let gs2 = gs.insert(p, entry);
    gs.insert_ensures(p, entry);
    assert forall|i: int, j: int|
        0 <= i < j < gs2.len() implies seq_lt(
        (#[trigger] gs2[i]).name,
        (#[trigger] gs2[j]).name,
    ) by {
        if i == p {
            let e = gs[j - 1];
            assert(gs2[j] == e);
            if j - 1 == p {
                assert(seq_lt(name, e.name));
            } else {
                assert(seq_lt(name, gs[p].name));
                assert(seq_lt(gs[p].name, e.name));
                lemma_seq_lt_transitive(name, gs[p].name, e.name);
            }
        } else if j == p {
            let e = gs[i];
            assert(gs2[i] == e);
            assert(e.name != name);
            lemma_seq_lt_connected(e.name, name);
        } else if i < p && j > p {
            assert(gs2[i] == gs[i] && gs2[j] == gs[j - 1]);
        } else if j < p {
            assert(gs2[i] == gs[i] && gs2[j] == gs[j]);
        } else {
            assert(gs2[i] == gs[i - 1] && gs2[j] == gs[j - 1]);
        }
    }
}

/// Fold one fetched RRset into the delegation listing: NS targets are grouped
/// under their owner name, new owners entering at their name-ordered
/// position; other types are ignored.
pub open spec fn add_ns_listing(acc: Seq<SubdomainListV>, rr: PdnsRrsetV) -> Seq<
    SubdomainListV,
> {
    if lower_seq(rr.rrtype) != lower_seq("NS"@) {
        acc
    } else {
        let i = find_listing(acc, rr.name);
        if i < 0 {
            acc.insert(
                listing_insert_pos(acc, rr.name),
                SubdomainListV { name: rr.name, records: rrset_contents(rr) },
            )
        } else {
            acc.update(
                i,
                SubdomainListV { name: acc[i].name, records: acc[i].records + rrset_contents(rr) },
            )
        }
    }
}

/// Folding keeps the listing sorted.
proof fn lemma_add_ns_listing_sorted(acc: Seq<SubdomainListV>, rr: PdnsRrsetV)
    requires
        listing_sorted(acc),
    ensures
        listing_sorted(add_ns_listing(acc, rr)),
{
    if lower_seq(rr.rrtype) == lower_seq("NS"@) {
        lemma_find_listing(acc, rr.name);
        let i = find_listing(acc, rr.name);
        if i < 0 {
            lemma_listing_insert_keeps_sorted(
                acc,
                rr.name,
                SubdomainListV { name: rr.name, records: rrset_contents(rr) },
            );
        } else {
            let gs2 = add_ns_listing(acc, rr);
            assert forall|a: int, b: int|
                0 <= a < b < gs2.len() implies seq_lt(
                (#[trigger] gs2[a]).name,
                (#[trigger] gs2[b]).name,
            ) by {
                assert(gs2[a].name == acc[a].name);
                assert(gs2[b].name == acc[b].name);
            }
        }
    }
}

/// The listing built from any fetched zone is strictly ascending by owner
/// name, with one entry per distinct owner.
pub proof fn lemma_group_ns_sorted(rs: Seq<PdnsRrsetV>, acc: Seq<SubdomainListV>)
    requires
        listing_sorted(acc),
    ensures
        listing_sorted(spec_group_ns(rs, acc)),
    decreases rs.len(),
{
    if rs.len() > 0 {
        lemma_add_ns_listing_sorted(acc, rs[0]);
        lemma_group_ns_sorted(rs.drop_first(), add_ns_listing(acc, rs[0]));
    }
}

/// The delegation listing built from a fetched zone, RRset by RRset.
pub open spec fn spec_group_ns(rs: Seq<PdnsRrsetV>, acc: Seq<SubdomainListV>) -> Seq<
    SubdomainListV,
>
    decreases rs.len(),
{
    if rs.len() == 0 {
        acc
    } else {
        spec_group_ns(rs.drop_first(), add_ns_listing(acc, rs[0]))
    }
}

/// Index of the listing entry whose name equals `name`, if any.
fn find_listing_exec(gs: &Vec<SubdomainListResponse>, name: &String) -> (r: Option<usize>)
    ensures
        match r {
            Some(i) => i < gs.len() && find_listing(gs.deep_view(), name@) == i as int,
            None => find_listing(gs.deep_view(), name@) == -1,
        },
{
    let n = gs.len();
    let mut i: usize = 0;
    while i < n
        invariant
            n == gs.len(),
            i <= n,
            forall|j: int| 0 <= j < i ==> (#[trigger] gs.deep_view()[j].name) != name@,
        decreases n - i,
    {
        if str_eq(gs[i].name.as_str(), name.as_str()) {
            proof {
                lemma_find_listing(gs.deep_view(), name@);
                let r = find_listing(gs.deep_view(), name@);
                assert(gs.deep_view()[i as int].name == name@);
                if r < i as int {
                    assert(gs.deep_view()[r].name != name@);
                }
            }
            return Some(i);
        }
        i = i + 1;
    }
    proof {
        lemma_find_listing(gs.deep_view(), name@);
        let r = find_listing(gs.deep_view(), name@);
        if r >= 0 {
            assert(gs.deep_view()[r].name != name@);
        }
    }
    None
}

/// The position where a new owner's entry must be inserted to keep the
/// listing ascending.
fn find_listing_insert_pos(gs: &Vec<SubdomainListResponse>, name: &String) -> (r: usize)
    ensures
        r <= gs.len(),
        r as int == listing_insert_pos(gs.deep_view(), name@),
{
    let n = gs.len();
    let mut i: usize = 0;
    while i < n
        invariant
            n == gs.len(),
            i <= n,
            forall|j: int| 0 <= j < i ==> !seq_lt(name@, (#[trigger] gs.deep_view()[j]).name),
        decreases n - i,
    {
        if str_lt(name.as_str(), gs[i].name.as_str()) {
            proof {
                assert(seq_lt(name@, gs.deep_view()[i as int].name));
                lemma_listing_insert_pos_at(gs.deep_view(), name@, i as int);
            }
            return i;
        }
        proof {
            assert(!seq_lt(name@, gs.deep_view()[i as int].name));
        }
        i = i + 1;
    }
    proof {
        lemma_listing_insert_pos_at(gs.deep_view(), name@, n as int);
    }
    n
}

/// The record contents of one fetched RRset, as owned strings.
fn rrset_contents_exec(rr: &PdnsRrset) -> (r: Vec<String>)
    ensures
        r.deep_view() == rrset_contents(rr.deep_view()),
{
    let mut out: Vec<String> = Vec::new();
    let m = rr.records.len();
    let mut j: usize = 0;
    while j < m
        invariant
            m == rr.records.len(),
            j <= m,
            out.deep_view().len() == j,
            forall|l: int|
                0 <= l < j ==> #[trigger] out.deep_view()[l] == rrset_contents(
                    rr.deep_view(),
                )[l],
        decreases m - j,
    {
        let ghost prev = out;
        out.push(rr.records[j].content.clone());
        proof {
            assert forall|l: int|
                0 <= l <= j implies #[trigger] out.deep_view()[l] == rrset_contents(
                rr.deep_view(),
            )[l] by {
                if l < j {
                    assert(out@[l] == prev@[l]);
                    assert(prev.deep_view()[l] == rrset_contents(rr.deep_view())[l]);
                } else {
                    assert(out@[l] == out@[j as int]);
                    assert(out.deep_view()[j as int] == rr.records@[j as int].content@);
                }
            }
        }
        j = j + 1;
    }
    proof {
        assert(out.deep_view() =~= rrset_contents(rr.deep_view()));
    }
    out
}

/// Enumerate the NS delegations of a fetched zone, grouped by owner name
/// and listed in ascending name order.
pub fn group_ns_records(rrsets: &Option<Vec<PdnsRrset>>) -> (r: Vec<SubdomainListResponse>)
    ensures
        match rrsets.deep_view() {
            None => r.deep_view() == Seq::<SubdomainListV>::empty(),
            Some(rs) => r.deep_view() == spec_group_ns(rs, Seq::empty())
                && listing_sorted(r.deep_view()),
        },
{
    proof {
        match rrsets.deep_view() {
            Some(rs0) => lemma_group_ns_sorted(rs0, Seq::empty()),
            None => {},
        }
    }
    let mut out: Vec<SubdomainListResponse> = Vec::new();
    match rrsets {
        None => out,
        Some(rs) => {
            proof {
                assert(rrsets.deep_view() == Some(rs.deep_view()));
                assert(rs.deep_view().skip(0) =~= rs.deep_view());
                assert(out.deep_view() =~= Seq::<SubdomainListV>::empty());
            }
            let n = rs.len();
            let mut i: usize = 0;
            while i < n
                invariant
                    rrsets.deep_view() == Some(rs.deep_view()),
                    n == rs.len(),
                    i <= n,
                    spec_group_ns(rs.deep_view(), Seq::empty()) == spec_group_ns(
                        rs.deep_view().skip(i as int),
                        out.deep_view(),
                    ),
                decreases n - i,
            {
                proof {
                    assert(rs.deep_view().skip(i as int)[0] == rs.deep_view()[i as int]);
                    assert(rs.deep_view().skip(i as int).drop_first() =~= rs.deep_view().skip(
                        i + 1,
                    ));
                }
                let ghost rrv = rs.deep_view()[i as int];
                let ghost before = out.deep_view();
                let rr = &rs[i];
                if eq_ignore_ascii_case(rr.rrtype.as_str(), "NS") {
                    match find_listing_exec(&out, &rr.name) {
                        None => {
                            let pos = find_listing_insert_pos(&out, &rr.name);
                            let entry = SubdomainListResponse {
                                name: rr.name.clone(),
                                records: rrset_contents_exec(rr),
                            };
                            proof {
                                assert(entry.deep_view() =~~= SubdomainListV {
                                    name: rrv.name,
                                    records: rrset_contents(rrv),
                                });
                            }
                            let ghost prevv = out;
                            let ghost entryv = entry.deep_view();
                            out.insert(pos, entry);
                            proof {
                                let p = pos as int;
                                before.insert_ensures(p, entryv);
                                assert forall|l: int|
                                    0 <= l < out.deep_view().len() implies out.deep_view()[l]
                                    == before.insert(p, entryv)[l] by {
                                    if l < p {
                                        assert(out@[l] == prevv@[l]);
                                    } else if l > p {
                                        assert(out@[l] == prevv@[l - 1]);
                                    }
                                }
                                assert(out.deep_view() =~~= before.insert(p, entryv));
                                assert(out.deep_view() =~~= add_ns_listing(before, rrv));
                            }
                        },
                        Some(idx) => {
                            let mut entry = out.remove(idx);
                            let ghost ev = entry.deep_view();
                            let mut extra = rrset_contents_exec(rr);
                            let ghost exv = extra.deep_view();
                            let m = extra.len();
                            let mut j: usize = 0;
                            while j < m
                                invariant
                                    m == extra.len(),
                                    j <= m,
                                    exv == extra.deep_view(),
                                    entry.deep_view().name == ev.name,
                                    entry.deep_view().records =~= ev.records + exv.subrange(
                                        0,
                                        j as int,
                                    ),
                                decreases m - j,
                            {
                                let ghost prevrec = entry.deep_view().records;
                                entry.records.push(extra[j].clone());
                                proof {
                                    assert(entry.deep_view().records =~= prevrec.push(
                                        exv[j as int],
                                    ));
                                    assert(entry.deep_view().records =~= ev.records
                                        + exv.subrange(0, j + 1));
                                }
                                j = j + 1;
                            }
                            proof {
                                assert(exv.subrange(0, m as int) =~= exv);
                                assert(entry.deep_view() =~~= SubdomainListV {
                                    name: ev.name,
                                    records: ev.records + rrset_contents(rrv),
                                });
                            }
                            out.insert(idx, entry);
                            proof {
                                assert(out.deep_view() =~~= add_ns_listing(before, rrv));
                            }
                        },
                    }
                } else {
                    proof {
                        assert(add_ns_listing(before, rrv) == before);
                    }
                }
                i = i + 1;
            }
            proof {
                assert(rs.deep_view().skip(n as int) =~= Seq::<PdnsRrsetV>::empty());
            }
            out
        },
    }
}

} // verus!
