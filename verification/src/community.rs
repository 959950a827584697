//! Communities: the records the server reports, merged one per JID, and
//! the list of community nodes built from them (each community followed
//! by its linked groups, both by name).
use vstd::prelude::*;
use vstd::string::StringExecFns;

use crate::avatar_window::{first_occurrences, string_views};
use crate::navigation::{list_selection, select_index, selected_index};
use ratatui::widgets::ListState;
use crate::text_order::{compare_text, text_less, Comparison, lemma_text_less_total, lemma_text_less_transitive};

verus! {

/// A community or group record as the server reports it. The same JID may
/// be reported more than once, with different metadata.
#[derive(Debug)]
pub struct CommunityInfo {
    pub jid: String,
    pub name: String,
    pub parent_jid: Option<String>,
    pub is_parent: bool,
    pub is_joined: bool,
    pub is_default_subgroup: bool,
    pub is_announce: Option<bool>,
    pub participant_count: Option<u32>,
}

/// A node of the community list: a community (root) with its linked
/// groups, or a group.
#[derive(Debug)]
pub struct CommunityNode {
    pub jid: String,
    pub name: String,
    pub is_root: bool,
    pub linked_groups: Vec<String>,
    pub is_joined: bool,
    pub is_default_subgroup: bool,
    pub is_announce: Option<bool>,
    pub participant_count: Option<u32>,
}

/// `false` sorts before `true`.
pub open spec fn bool_less(a: bool, b: bool) -> bool {
    !a && b
}

/// `None` sorts before `Some`, and `Some` values by their content.
pub open spec fn opt_bool_less(a: Option<bool>, b: Option<bool>) -> bool {
    match (a, b) {
        (None, Some(_)) => true,
        (Some(x), Some(y)) => bool_less(x, y),
        _ => false,
    }
}

/// `None` sorts before `Some`, and `Some` values by their content.
pub open spec fn opt_count_less(a: Option<u32>, b: Option<u32>) -> bool {
    match (a, b) {
        (None, Some(_)) => true,
        (Some(x), Some(y)) => x < y,
        _ => false,
    }
}

/// The parent JID of a record, empty for none.
pub open spec fn parent_text(r: CommunityInfo) -> Seq<char> {
    match r.parent_jid {
        Some(p) => p@,
        None => Seq::empty(),
    }
}

/// Two records carry the same metadata: they tie in the merge order.
pub open spec fn same_record_key(a: CommunityInfo, b: CommunityInfo) -> bool {
    &&& a.is_joined == b.is_joined
    &&& a.name@ == b.name@
    &&& parent_text(a) == parent_text(b)
    &&& a.is_parent == b.is_parent
    &&& a.is_default_subgroup == b.is_default_subgroup
    &&& a.is_announce == b.is_announce
    &&& a.participant_count == b.participant_count
}

/// The merge order of records: joined first, then by name, parent JID,
/// communities before groups, default subgroups first, then by the
/// announcement flag and the participant count.
pub open spec fn record_less(a: CommunityInfo, b: CommunityInfo) -> bool {
    if a.is_joined != b.is_joined {
        bool_less(!a.is_joined, !b.is_joined)
    } else if a.name@ != b.name@ {
        text_less(a.name@, b.name@)
    } else if parent_text(a) != parent_text(b) {
        text_less(parent_text(a), parent_text(b))
    } else if a.is_parent != b.is_parent {
        bool_less(!a.is_parent, !b.is_parent)
    } else if a.is_default_subgroup != b.is_default_subgroup {
        bool_less(!a.is_default_subgroup, !b.is_default_subgroup)
    } else if a.is_announce != b.is_announce {
        opt_bool_less(a.is_announce, b.is_announce)
    } else {
        opt_count_less(a.participant_count, b.participant_count)
    }
}

/// Of two records, exactly one sorts first, unless they tie.
pub proof fn lemma_record_less_total(a: CommunityInfo, b: CommunityInfo)
    ensures
        same_record_key(a, b) ==> !record_less(a, b) && !record_less(b, a),
        !same_record_key(a, b) ==> record_less(a, b) != record_less(b, a),
{
    lemma_text_less_total(a.name@, b.name@);
    lemma_text_less_total(parent_text(a), parent_text(b));
}

/// The merge order is transitive.
pub proof fn lemma_record_less_transitive(a: CommunityInfo, b: CommunityInfo, c: CommunityInfo)
    requires
        record_less(a, b),
        record_less(b, c),
    ensures
        record_less(a, c),
{
    lemma_text_less_total(a.name@, b.name@);
    lemma_text_less_total(b.name@, c.name@);
    lemma_text_less_total(a.name@, c.name@);
    lemma_text_less_total(parent_text(a), parent_text(b));
    lemma_text_less_total(parent_text(b), parent_text(c));
    lemma_text_less_total(parent_text(a), parent_text(c));
    if a.name@ != b.name@ && b.name@ != c.name@ && text_less(a.name@, b.name@) && text_less(b.name@, c.name@) {
        lemma_text_less_transitive(a.name@, b.name@, c.name@);
    }
    if parent_text(a) != parent_text(b) && parent_text(b) != parent_text(c) && text_less(parent_text(a), parent_text(b))
        && text_less(parent_text(b), parent_text(c)) {
        lemma_text_less_transitive(parent_text(a), parent_text(b), parent_text(c));
    }
}

/// Records that tie sort alike against any third.
pub proof fn lemma_record_tie(a: CommunityInfo, b: CommunityInfo, c: CommunityInfo)
    requires
        same_record_key(a, b),
    ensures
        record_less(a, c) == record_less(b, c),
        record_less(c, a) == record_less(c, b),
{
}

fn bool_comparison(a: bool, b: bool) -> (r: Comparison)
    ensures
        r == (if a == b {
            Comparison::Equal
        } else if bool_less(a, b) {
            Comparison::Less
        } else {
            Comparison::Greater
        }),
{
    if a == b {
        Comparison::Equal
    } else if !a {
        Comparison::Less
    } else {
        Comparison::Greater
    }
}

fn parent_str(r: &CommunityInfo) -> (s: &str)
    ensures
        s@ == parent_text(*r),
{
    match &r.parent_jid {
        Some(p) => p.as_str(),
        None => {
            let e = "";
            proof {
                reveal_strlit("");
                assert(e@ =~= Seq::<char>::empty());
            }
            e
        },
    }
}

/// Whether record `a` sorts before record `b` in the merge order.
pub fn record_sorts_before(a: &CommunityInfo, b: &CommunityInfo) -> (r: bool)
    ensures
        r == record_less(*a, *b),
{
    match bool_comparison(!a.is_joined, !b.is_joined) {
        Comparison::Less => return true,
        Comparison::Greater => return false,
        Comparison::Equal => {},
    }
    proof {
        lemma_text_less_total(a.name@, b.name@);
    }
    match compare_text(a.name.as_str(), b.name.as_str()) {
        Comparison::Less => return true,
        Comparison::Greater => return false,
        Comparison::Equal => {},
    }
    let pa = parent_str(a);
    let pb = parent_str(b);
    proof {
        reveal_strlit("");
        lemma_text_less_total(pa@, pb@);
    }
    match compare_text(pa, pb) {
        Comparison::Less => return true,
        Comparison::Greater => return false,
        Comparison::Equal => {},
    }
    match bool_comparison(!a.is_parent, !b.is_parent) {
        Comparison::Less => return true,
        Comparison::Greater => return false,
        Comparison::Equal => {},
    }
    match bool_comparison(!a.is_default_subgroup, !b.is_default_subgroup) {
        Comparison::Less => return true,
        Comparison::Greater => return false,
        Comparison::Equal => {},
    }
    match (a.is_announce, b.is_announce) {
        (None, Some(_)) => return true,
        (Some(_), None) => return false,
        (Some(x), Some(y)) => {
            if x != y {
                return !x;
            }
        },
        (None, None) => {},
    }
    match (a.participant_count, b.participant_count) {
        (None, Some(_)) => true,
        (Some(x), Some(y)) => x < y,
        _ => false,
    }
}

/// The two records report the same JID.
pub open spec fn same_jid(a: CommunityInfo, b: CommunityInfo) -> bool {
    a.jid@ == b.jid@
}

/// Record `i` is the one kept for its JID among the first `n` records: the
/// first of those that sort first.
pub open spec fn kept_among(records: Seq<CommunityInfo>, i: int, n: int) -> bool {
    &&& 0 <= i < n <= records.len()
    &&& forall|j: int|
        0 <= j < n && #[trigger] same_jid(records[j], records[i]) ==> (j < i ==> record_less(
            records[i],
            records[j],
        )) && (j >= i ==> !record_less(records[j], records[i]))
}

/// Record `i` is the one kept for its JID.
pub open spec fn kept(records: Seq<CommunityInfo>, i: int) -> bool {
    kept_among(records, i, records.len() as int)
}

/// `r` is the record kept for its JID.
pub open spec fn is_kept_record(records: Seq<CommunityInfo>, r: CommunityInfo) -> bool {
    exists|i: int| kept(records, i) && r == records[i]
}

/// Some record of `m` has the JID of `r`.
pub open spec fn jid_listed(m: Seq<CommunityInfo>, r: CommunityInfo) -> bool {
    exists|a: int| 0 <= a < m.len() && #[trigger] same_jid(m[a], r)
}

/// `m` merges `records`: one record per JID, the kept one, sorted by the
/// merge order (records that tie may come in any order).
pub open spec fn is_merge(records: Seq<CommunityInfo>, m: Seq<CommunityInfo>) -> bool {
    &&& forall|a: int| 0 <= a < m.len() ==> #[trigger] is_kept_record(records, m[a])
    &&& forall|i: int| 0 <= i < records.len() ==> #[trigger] jid_listed(m, records[i])
    &&& forall|a: int, b: int| 0 <= a < b < m.len() ==> m[a].jid@ != m[b].jid@
    &&& forall|a: int, b: int| 0 <= a < b < m.len() ==> !record_less(m[b], m[a])
}

/// Some picked position holds a record with the JID of `r`.
pub open spec fn jid_picked(records: Seq<CommunityInfo>, picks: Seq<usize>, r: CommunityInfo) -> bool {
    exists|p: int| 0 <= p < picks.len() && #[trigger] same_jid(records[picks[p] as int], r)
}

/// A copy of a record.
pub fn copy_record(r: &CommunityInfo) -> (c: CommunityInfo)
    ensures
        c == *r,
{
    let parent_jid = match &r.parent_jid {
        Some(p) => Some(p.clone()),
        None => None,
    };
    CommunityInfo {
        jid: r.jid.clone(),
        name: r.name.clone(),
        parent_jid,
        is_parent: r.is_parent,
        is_joined: r.is_joined,
        is_default_subgroup: r.is_default_subgroup,
        is_announce: r.is_announce,
        participant_count: r.participant_count,
    }
}

fn jid_eq(a: &CommunityInfo, b: &CommunityInfo) -> (r: bool)
    ensures
        r == same_jid(*a, *b),
{
    compare_text(a.jid.as_str(), b.jid.as_str()) == Comparison::Equal
}

/// For each JID, the position of the record kept for it, in the order the
/// JIDs first occur.
fn kept_positions(records: &[CommunityInfo]) -> (picks: Vec<usize>)
    ensures
        forall|p: int| 0 <= p < picks.len() ==> kept(records@, picks@[p] as int),
        forall|p: int, q: int|
            0 <= p < q < picks.len() ==> !same_jid(records@[picks@[p] as int], records@[picks@[q] as int]),
        forall|i: int| 0 <= i < records.len() ==> #[trigger] jid_picked(records@, picks@, records@[i]),
{
    let mut picks: Vec<usize> = Vec::new();
    let mut i: usize = 0;
    while i < records.len()
        invariant
            0 <= i <= records.len(),
            forall|p: int| 0 <= p < picks.len() ==> kept_among(records@, picks@[p] as int, i as int),
            forall|p: int, q: int|
                0 <= p < q < picks.len() ==> !same_jid(records@[picks@[p] as int], records@[picks@[q] as int]),
            forall|j: int| 0 <= j < i ==> #[trigger] jid_picked(records@, picks@, records@[j]),
        decreases records.len() - i,
    {
        let mut p: usize = 0;
        while p < picks.len()
            invariant
                0 <= p <= picks.len(),
                i < records.len(),
                forall|q: int| 0 <= q < picks.len() ==> kept_among(records@, picks@[q] as int, i as int),
                forall|q: int| 0 <= q < p ==> !same_jid(records@[picks@[q] as int], records@[i as int]),
            ensures
                p < picks.len() ==> same_jid(records@[picks@[p as int] as int], records@[i as int]),
            decreases picks.len() - p,
        {
            if jid_eq(&records[picks[p]], &records[i]) {
                break;
            }
            p += 1;
        }
        let ghost before = picks@;
        if p < picks.len() {
            let c = picks[p];
            if record_sorts_before(&records[i], &records[c]) {
                picks.set(p, i);
                proof {
                    assert forall|j: int|
                        0 <= j < i + 1 && #[trigger] same_jid(records@[j], records@[i as int]) implies (j < i
                            ==> record_less(records@[i as int], records@[j])) by {
                        assert(same_jid(records@[j], records@[c as int]));
                        if j < c {
                            lemma_record_less_transitive(records@[i as int], records@[c as int], records@[j]);
                        } else if c < j < i {
                            lemma_record_less_total(records@[j], records@[c as int]);
                            if same_record_key(records@[j], records@[c as int]) {
                                lemma_record_tie(records@[c as int], records@[j], records@[i as int]);
                            } else {
                                lemma_record_less_transitive(records@[i as int], records@[c as int], records@[j]);
                            }
                        }
                    }
                    lemma_record_less_total(records@[i as int], records@[i as int]);
                }
            } else {
                proof {
                    assert forall|j: int|
                        0 <= j < i + 1 && #[trigger] same_jid(records@[j], records@[c as int]) implies (j < c
                            ==> record_less(records@[c as int], records@[j])) && (j >= c ==> !record_less(
                            records@[j],
                            records@[c as int],
                        )) by {
                        assert(kept_among(records@, c as int, i as int));
                        if j < i {
                            assert(same_jid(records@[j], records@[c as int]));
                        }
                    }
                }
            }
        } else {
            picks.push(i);
            proof {
                assert forall|j: int|
                    0 <= j < i + 1 && #[trigger] same_jid(records@[j], records@[i as int]) implies (j < i
                        ==> record_less(records@[i as int], records@[j])) && (j >= i ==> !record_less(
                        records@[j],
                        records@[i as int],
                    )) by {
                    if j < i {
                        assert(jid_picked(records@, before, records@[j]));
                        let q = choose|q: int|
                            0 <= q < before.len() && #[trigger] same_jid(records@[before[q] as int], records@[j]);
                        assert(!same_jid(records@[before[q] as int], records@[i as int]));
                    } else {
                        lemma_record_less_total(records@[i as int], records@[i as int]);
                    }
                }
            }
        }
        proof {
            assert forall|x: int, y: int|
                0 <= x < y < picks.len() implies !same_jid(records@[picks@[x] as int], records@[picks@[y] as int]) by {
                if p < before.len() {
                    assert(same_jid(records@[picks@[p as int] as int], records@[before[p as int] as int]));
                    assert(!same_jid(records@[before[x] as int], records@[before[y] as int]));
                } else if y == before.len() {
                    assert(!same_jid(records@[before[x] as int], records@[i as int]));
                } else {
                    assert(!same_jid(records@[before[x] as int], records@[before[y] as int]));
                }
            }
            assert forall|q: int| 0 <= q < picks.len() implies kept_among(records@, picks@[q] as int, i + 1) by {
                if q != p {
                    let c = picks@[q] as int;
                    assert(kept_among(records@, c, i as int));
                    assert forall|j: int|
                        0 <= j < i + 1 && #[trigger] same_jid(records@[j], records@[c]) implies (j < c
                            ==> record_less(records@[c], records@[j])) && (j >= c ==> !record_less(
                            records@[j],
                            records@[c],
                        )) by {
                        if j == i {
                            if p < before.len() {
                                assert(same_jid(records@[before[p as int] as int], records@[i as int]));
                                assert(!same_jid(records@[before[p as int] as int], records@[c]));
                            } else {
                                assert(!same_jid(records@[c], records@[i as int]));
                            }
                        }
                    }
                }
            }
            assert forall|j: int| 0 <= j < i + 1 implies #[trigger] jid_picked(records@, picks@, records@[j]) by {
                if j == i {
                    assert(same_jid(records@[picks@[p as int] as int], records@[j]));
                } else {
                    assert(jid_picked(records@, before, records@[j]));
                    let q = choose|q: int|
                        0 <= q < before.len() && #[trigger] same_jid(records@[before[q] as int], records@[j]);
                    if q == p {
                        assert(same_jid(records@[picks@[p as int] as int], records@[j]));
                    } else {
                        assert(same_jid(records@[picks@[q] as int], records@[j]));
                    }
                }
            }
        }
        i += 1;
    }
    picks
}

/// `v` is one of the first `k` values of `s`.
pub open spec fn among(s: Seq<usize>, k: int, v: usize) -> bool {
    exists|q: int| 0 <= q < k && v == #[trigger] s[q]
}

/// Merges the reported records: one per JID, the one that sorts first in
/// the merge order (the earliest of those that tie), all sorted by that
/// order.
pub fn merged_records(records: &[CommunityInfo]) -> (m: Vec<CommunityInfo>)
    ensures
        is_merge(records@, m@),
{
    let picks = kept_positions(records);
    let mut sorted: Vec<usize> = Vec::new();
    let mut k: usize = 0;
    while k < picks.len()
        invariant
            0 <= k <= picks.len(),
            forall|a: int| 0 <= a < sorted.len() ==> #[trigger] among(picks@, k as int, sorted@[a]),
            forall|q: int| 0 <= q < k ==> sorted@.contains(#[trigger] picks@[q]),
            sorted.len() == k,
            forall|p: int| 0 <= p < picks.len() ==> kept(records@, picks@[p] as int),
            forall|p: int| 0 <= p < picks.len() ==> (picks@[p] as int) < records.len(),
            forall|a: int| 0 <= a < sorted.len() ==> (sorted@[a] as int) < records.len(),
            forall|p: int, q: int|
                0 <= p < q < picks.len() ==> !same_jid(records@[picks@[p] as int], records@[picks@[q] as int]),
            forall|a: int, b: int|
                0 <= a < b < sorted.len() ==> !record_less(records@[sorted@[b] as int], records@[sorted@[a] as int]),
            forall|a: int, b: int|
                0 <= a < b < sorted.len() ==> !same_jid(records@[sorted@[a] as int], records@[sorted@[b] as int]),
        decreases picks.len() - k,
    {
        let x = picks[k];
        assert(kept(records@, x as int));
        let mut p: usize = 0;
        while p < sorted.len()
            invariant
                0 <= p <= sorted.len(),
                (x as int) < records.len(),
                forall|a: int| 0 <= a < sorted.len() ==> (sorted@[a] as int) < records.len(),
                forall|a: int| 0 <= a < p ==> !record_less(records@[x as int], records@[sorted@[a] as int]),
            ensures
                p < sorted.len() ==> record_less(records@[x as int], records@[sorted@[p as int] as int]),
            decreases sorted.len() - p,
        {
            if record_sorts_before(&records[x], &records[sorted[p]]) {
                break;
            }
            p += 1;
        }
        let ghost before = sorted@;
        proof {
            assert forall|a: int| p <= a < before.len() implies !record_less(
                records@[before[a] as int],
                records@[x as int],
            ) by {
                lemma_record_less_total(records@[before[a] as int], records@[x as int]);
                if a > p && record_less(records@[before[a] as int], records@[x as int]) {
                    lemma_record_less_transitive(
                        records@[before[a] as int],
                        records@[x as int],
                        records@[before[p as int] as int],
                    );
                }
            }
            assert forall|a: int| 0 <= a < before.len() implies !same_jid(records@[before[a] as int], records@[x as int]) by {
                assert(among(picks@, k as int, before[a]));
                let q = choose|q: int| 0 <= q < k && before[a] == #[trigger] picks@[q];
                assert(!same_jid(records@[picks@[q] as int], records@[picks@[k as int] as int]));
            }
        }
        sorted.insert(p, x);
        proof {
            assert(sorted@ == before.insert(p as int, x));
            assert forall|a: int| 0 <= a < sorted.len() implies #[trigger] among(picks@, k + 1, sorted@[a]) by {
                if a < p {
                    assert(sorted@[a] == before[a]);
                    assert(among(picks@, k as int, before[a]));
                } else if a > p {
                    assert(sorted@[a] == before[a - 1]);
                    assert(among(picks@, k as int, before[a - 1]));
                } else {
                    assert(sorted@[a] == picks@[k as int]);
                }
            }
            assert forall|q: int| 0 <= q < k + 1 implies sorted@.contains(#[trigger] picks@[q]) by {
                if q == k {
                    assert(sorted@[p as int] == x);
                } else {
                    assert(before.contains(picks@[q]));
                    let a = choose|a: int| 0 <= a < before.len() && before[a] == picks@[q];
                    if a < p {
                        assert(sorted@[a] == before[a]);
                    } else {
                        assert(sorted@[a + 1] == before[a]);
                    }
                }
            }
            assert forall|a: int| 0 <= a < sorted.len() implies (sorted@[a] as int) < records.len() by {
                if a < p {
                    assert(sorted@[a] == before[a]);
                } else if a > p {
                    assert(sorted@[a] == before[a - 1]);
                }
            }
            assert forall|a: int, b: int|
                0 <= a < b < sorted.len() implies !record_less(records@[sorted@[b] as int], records@[sorted@[a] as int])
                    && !same_jid(records@[sorted@[a] as int], records@[sorted@[b] as int]) by {
                if a < p && b < p {
                    assert(sorted@[a] == before[a] && sorted@[b] == before[b]);
                } else if a < p && b == p {
                    assert(sorted@[a] == before[a]);
                } else if a < p {
                    assert(sorted@[a] == before[a] && sorted@[b] == before[b - 1]);
                } else if a == p {
                    assert(sorted@[b] == before[b - 1]);
                } else {
                    assert(sorted@[a] == before[a - 1] && sorted@[b] == before[b - 1]);
                }
            }
        }
        k += 1;
    }
    let mut m: Vec<CommunityInfo> = Vec::new();
    let mut a: usize = 0;
    while a < sorted.len()
        invariant
            0 <= a <= sorted.len(),
            m.len() == a,
            sorted.len() == picks.len(),
            forall|b: int| 0 <= b < sorted.len() ==> #[trigger] among(picks@, picks.len() as int, sorted@[b]),
            forall|q: int| 0 <= q < picks.len() ==> sorted@.contains(#[trigger] picks@[q]),
            forall|p: int| 0 <= p < picks.len() ==> kept(records@, picks@[p] as int),
            forall|b: int| 0 <= b < a ==> m@[b] == records@[sorted@[b] as int],
            forall|x: int, y: int|
                0 <= x < y < sorted.len() ==> !record_less(records@[sorted@[y] as int], records@[sorted@[x] as int]),
            forall|x: int, y: int|
                0 <= x < y < sorted.len() ==> !same_jid(records@[sorted@[x] as int], records@[sorted@[y] as int]),
            forall|b: int| 0 <= b < sorted.len() ==> (sorted@[b] as int) < records.len(),
        decreases sorted.len() - a,
    {
        proof {
            assert(among(picks@, picks.len() as int, sorted@[a as int]));
        }
        m.push(copy_record(&records[sorted[a]]));
        a += 1;
    }
    proof {
        assert forall|b: int| 0 <= b < m.len() implies #[trigger] is_kept_record(records@, m@[b]) by {
            assert(among(picks@, picks.len() as int, sorted@[b]));
            let q = choose|q: int| 0 <= q < picks.len() && sorted@[b] == #[trigger] picks@[q];
            assert(kept(records@, sorted@[b] as int));
        }
        assert forall|i: int| 0 <= i < records.len() implies #[trigger] jid_listed(m@, records@[i]) by {
            assert(jid_picked(records@, picks@, records@[i]));
            let q = choose|q: int| 0 <= q < picks.len() && #[trigger] same_jid(records@[picks@[q] as int], records@[i]);
            assert(sorted@.contains(picks@[q]));
            let b = choose|b: int| 0 <= b < sorted.len() && sorted@[b] == picks@[q];
            assert(same_jid(m@[b], records@[i]));
        }
        assert forall|x: int, y: int| 0 <= x < y < m.len() implies #[trigger] m@[x].jid@ != #[trigger] m@[y].jid@ by {
            assert(!same_jid(records@[sorted@[x] as int], records@[sorted@[y] as int]));
        }
    }
    m
}

/// The list order of communities and of the groups of one community: by
/// name, then by JID.
pub open spec fn name_jid_less(a: CommunityInfo, b: CommunityInfo) -> bool {
    text_less(a.name@, b.name@) || (a.name@ == b.name@ && text_less(a.jid@, b.jid@))
}

proof fn lemma_name_jid_total(a: CommunityInfo, b: CommunityInfo)
    requires
        a.jid@ != b.jid@,
    ensures
        name_jid_less(a, b) != name_jid_less(b, a),
{
    lemma_text_less_total(a.name@, b.name@);
    lemma_text_less_total(a.jid@, b.jid@);
}

proof fn lemma_name_jid_transitive(a: CommunityInfo, b: CommunityInfo, c: CommunityInfo)
    requires
        name_jid_less(a, b),
        name_jid_less(b, c),
    ensures
        name_jid_less(a, c),
{
    lemma_text_less_total(a.name@, b.name@);
    lemma_text_less_total(b.name@, c.name@);
    lemma_text_less_total(a.name@, c.name@);
    if text_less(a.name@, b.name@) && text_less(b.name@, c.name@) {
        lemma_text_less_transitive(a.name@, b.name@, c.name@);
    }
    if a.name@ == b.name@ && b.name@ == c.name@ {
        lemma_text_less_transitive(a.jid@, b.jid@, c.jid@);
    }
}

fn name_jid_before(a: &CommunityInfo, b: &CommunityInfo) -> (r: bool)
    ensures
        r == name_jid_less(*a, *b),
{
    proof {
        lemma_text_less_total(a.name@, b.name@);
        lemma_text_less_total(a.jid@, b.jid@);
    }
    match compare_text(a.name.as_str(), b.name.as_str()) {
        Comparison::Less => true,
        Comparison::Greater => false,
        Comparison::Equal => compare_text(a.jid.as_str(), b.jid.as_str()) == Comparison::Less,
    }
}

/// The record belongs to the listing: a community where `parent` is
/// `None`, a group linked to the community `parent` otherwise.
pub open spec fn parent_is(r: CommunityInfo, parent: Option<Seq<char>>) -> bool {
    match parent {
        None => r.is_parent,
        Some(j) => r.parent_jid is Some && r.parent_jid->Some_0@ == j,
    }
}

/// The JIDs of `m` are distinct.
pub open spec fn distinct_jids(m: Seq<CommunityInfo>) -> bool {
    forall|a: int, b: int| 0 <= a < b < m.len() ==> m[a].jid@ != m[b].jid@
}

/// `order` lists the positions of the records of `m` that belong to the
/// listing of `parent`, by name and JID.
pub open spec fn is_group_listing(m: Seq<CommunityInfo>, parent: Option<Seq<char>>, order: Seq<usize>) -> bool {
    &&& forall|x: usize| order.contains(x) <==> ((x as int) < m.len() && parent_is(m[x as int], parent))
    &&& forall|a: int, b: int|
        0 <= a < b < order.len() ==> name_jid_less(m[order[a] as int], m[order[b] as int])
}

fn belongs(r: &CommunityInfo, parent: Option<&str>) -> (b: bool)
    ensures
        b == parent_is(
            *r,
            match parent {
                Some(j) => Some(j@),
                None => None,
            },
        ),
{
    match parent {
        None => r.is_parent,
        Some(j) => match &r.parent_jid {
            Some(pj) => compare_text(pj.as_str(), j) == Comparison::Equal,
            None => false,
        },
    }
}

/// The positions of the communities (`parent` is `None`) or of the groups
/// linked to `parent`, by name and JID.
fn listing_positions(m: &[CommunityInfo], parent: Option<&str>) -> (order: Vec<usize>)
    requires
        distinct_jids(m@),
    ensures
        is_group_listing(
            m@,
            match parent {
                Some(j) => Some(j@),
                None => None,
            },
            order@,
        ),
{
    let ghost par = match parent {
        Some(j) => Some(j@),
        None => None,
    };
    let mut order: Vec<usize> = Vec::new();
    let mut k: usize = 0;
    while k < m.len()
        invariant
            0 <= k <= m.len(),
            distinct_jids(m@),
            par == match parent {
                Some(j) => Some(j@),
                None => None::<Seq<char>>,
            },
            forall|x: usize| order@.contains(x) <==> (x < k && parent_is(m@[x as int], par)),
            forall|a: int, b: int|
                0 <= a < b < order.len() ==> name_jid_less(m@[order@[a] as int], m@[order@[b] as int]),
        decreases m.len() - k,
    {
        if belongs(&m[k], parent) {
            assert forall|a: int| 0 <= a < order.len() implies (order@[a] as int) < k by {
                assert(order@.contains(order@[a]));
            }
            let mut p: usize = 0;
            while p < order.len()
                invariant
                    0 <= p <= order.len(),
                    k < m.len(),
                    distinct_jids(m@),
                    forall|a: int| 0 <= a < order.len() ==> (order@[a] as int) < k,
                    forall|a: int| 0 <= a < p ==> name_jid_less(m@[order@[a] as int], m@[k as int]),
                ensures
                    p < order.len() ==> name_jid_less(m@[k as int], m@[order@[p as int] as int]),
                decreases order.len() - p,
            {
                let x = order[p];
                if name_jid_before(&m[k], &m[x]) {
                    break;
                }
                proof {
                    lemma_name_jid_total(m@[k as int], m@[x as int]);
                }
                p += 1;
            }
            let ghost before = order@;
            proof {
                assert forall|a: int| p <= a < before.len() implies name_jid_less(
                    m@[k as int],
                    m@[before[a] as int],
                ) by {
                    if a > p {
                        lemma_name_jid_transitive(m@[k as int], m@[before[p as int] as int], m@[before[a] as int]);
                    }
                }
            }
            order.insert(p, k);
            proof {
                assert(order@ == before.insert(p as int, k));
                assert forall|a: int, b: int|
                    0 <= a < b < order@.len() implies name_jid_less(m@[order@[a] as int], m@[order@[b] as int]) by {
                    if a < p as int && b < p as int {
                        assert(order@[a] == before[a] && order@[b] == before[b]);
                    } else if a < p as int && b == p as int {
                        assert(order@[a] == before[a]);
                    } else if a < p as int {
                        assert(order@[a] == before[a] && order@[b] == before[b - 1]);
                    } else if a == p as int {
                        assert(order@[b] == before[b - 1]);
                    } else {
                        assert(order@[a] == before[a - 1] && order@[b] == before[b - 1]);
                    }
                }
                assert forall|x: usize| order@.contains(x) <==> (x < k + 1 && parent_is(m@[x as int], par)) by {
                    if order@.contains(x) {
                        let i = choose|i: int| 0 <= i < order@.len() && order@[i] == x;
                        if i < p as int {
                            assert(before[i] == x);
                            assert(before.contains(x));
                        } else if i > p as int {
                            assert(before[i - 1] == x);
                            assert(before.contains(x));
                        }
                    }
                    if x < k + 1 && parent_is(m@[x as int], par) {
                        if x == k {
                            assert(order@[p as int] == k);
                        } else {
                            assert(before.contains(x));
                            let i = choose|i: int| 0 <= i < before.len() && before[i] == x;
                            if i < p as int {
                                assert(order@[i] == x);
                            } else {
                                assert(order@[i + 1] == x);
                            }
                        }
                    }
                }
            }
        }
        k += 1;
    }
    order
}

/// The node `n` shows record `r`, linked to the groups `linked`.
pub open spec fn node_of(n: CommunityNode, r: CommunityInfo, linked: Seq<Seq<char>>) -> bool {
    &&& n.jid@ == r.jid@
    &&& n.name@ == r.name@
    &&& n.is_root == r.is_parent
    &&& string_views(n.linked_groups@) == linked
    &&& n.is_joined == r.is_joined
    &&& n.is_default_subgroup == r.is_default_subgroup
    &&& n.is_announce == r.is_announce
    &&& n.participant_count == r.participant_count
}

/// The JIDs of the records at `order`.
pub open spec fn jids_at(m: Seq<CommunityInfo>, order: Seq<usize>) -> Seq<Seq<char>> {
    order.map_values(|x: usize| m[x as int].jid@)
}

/// Where the nodes of the `i`-th community start: each community takes one
/// node and one more per linked group.
pub open spec fn block_start(blocks: Seq<Seq<usize>>, i: int) -> int
    decreases i,
{
    if i <= 0 {
        0
    } else {
        block_start(blocks, i - 1) + 1 + blocks[i - 1].len()
    }
}

proof fn lemma_block_start_push(blocks: Seq<Seq<usize>>, b: Seq<usize>, i: int)
    requires
        0 <= i <= blocks.len(),
    ensures
        block_start(blocks.push(b), i) == block_start(blocks, i),
    decreases i,
{
    if i > 0 {
        lemma_block_start_push(blocks, b, i - 1);
        assert(blocks.push(b)[i - 1] == blocks[i - 1]);
    }
}

proof fn lemma_block_start_grows(blocks: Seq<Seq<usize>>, i: int, j: int)
    requires
        0 <= i <= j <= blocks.len(),
    ensures
        0 <= block_start(blocks, i) <= block_start(blocks, j),
        i < j ==> block_start(blocks, i) + 1 + blocks[i].len() <= block_start(blocks, j),
    decreases j,
{
    if i < j {
        lemma_block_start_grows(blocks, i, j - 1);
    } else if i > 0 {
        lemma_block_start_grows(blocks, i - 1, i - 1);
    }
}

/// The nodes list the communities of `m` at `roots`, each followed by its
/// linked groups at `blocks`.
pub open spec fn lists_nodes(
    m: Seq<CommunityInfo>,
    roots: Seq<usize>,
    blocks: Seq<Seq<usize>>,
    nodes: Seq<CommunityNode>,
) -> bool {
    &&& is_group_listing(m, None, roots)
    &&& blocks.len() == roots.len()
    &&& forall|i: int|
        0 <= i < roots.len() ==> is_group_listing(m, Some(m[roots[i] as int].jid@), #[trigger] blocks[i])
    &&& nodes.len() == block_start(blocks, roots.len() as int)
    &&& forall|i: int|
        0 <= i < roots.len() ==> node_of(
            nodes[block_start(blocks, i)],
            m[#[trigger] roots[i] as int],
            jids_at(m, blocks[i]),
        )
    &&& forall|i: int, c: int|
        0 <= i < roots.len() && 0 <= c < blocks[i].len() ==> node_of(
            nodes[block_start(blocks, i) + 1 + c],
            m[#[trigger] blocks[i][c] as int],
            Seq::empty(),
        )
}

/// The community list of the merged records `m`: the communities by name
/// and JID, each followed by the groups linked to it, by name and JID.
pub open spec fn is_node_listing(m: Seq<CommunityInfo>, nodes: Seq<CommunityNode>) -> bool {
    exists|roots: Seq<usize>, blocks: Seq<Seq<usize>>| lists_nodes(m, roots, blocks, nodes)
}

fn make_node(r: &CommunityInfo, linked_groups: Vec<String>) -> (n: CommunityNode)
    ensures
        node_of(n, *r, string_views(linked_groups@)),
{
    CommunityNode {
        jid: r.jid.clone(),
        name: r.name.clone(),
        is_root: r.is_parent,
        linked_groups,
        is_joined: r.is_joined,
        is_default_subgroup: r.is_default_subgroup,
        is_announce: r.is_announce,
        participant_count: r.participant_count,
    }
}

/// Builds the community list from merged records.
pub fn community_nodes(m: &[CommunityInfo]) -> (nodes: Vec<CommunityNode>)
    requires
        distinct_jids(m@),
    ensures
        is_node_listing(m@, nodes@),
{
    let roots = listing_positions(m, None);
    let mut nodes: Vec<CommunityNode> = Vec::new();
    let ghost mut blocks: Seq<Seq<usize>> = Seq::empty();
    let mut i: usize = 0;
    while i < roots.len()
        invariant
            0 <= i <= roots.len(),
            distinct_jids(m@),
            is_group_listing(m@, None, roots@),
            blocks.len() == i,
            forall|j: int|
                0 <= j < i ==> is_group_listing(m@, Some(m@[roots@[j] as int].jid@), #[trigger] blocks[j]),
            nodes.len() == block_start(blocks, i as int),
            forall|j: int|
                0 <= j < i ==> node_of(
                    nodes@[block_start(blocks, j)],
                    m@[#[trigger] roots@[j] as int],
                    jids_at(m@, blocks[j]),
                ),
            forall|j: int, c: int|
                0 <= j < i && 0 <= c < blocks[j].len() ==> node_of(
                    nodes@[block_start(blocks, j) + 1 + c],
                    m@[#[trigger] blocks[j][c] as int],
                    Seq::empty(),
                ),
        decreases roots.len() - i,
    {
        assert(roots@.contains(roots@[i as int]));
        let r = roots[i];
        let children = listing_positions(m, Some(m[r].jid.as_str()));
        let ghost start = nodes@.len();
        let ghost nodes0 = nodes@;
        let mut linked: Vec<String> = Vec::new();
        let mut c: usize = 0;
        while c < children.len()
            invariant
                0 <= c <= children.len(),
                linked.len() == c,
                is_group_listing(m@, Some(m@[r as int].jid@), children@),
                forall|d: int| 0 <= d < c ==> (#[trigger] linked@[d])@ == m@[children@[d] as int].jid@,
            decreases children.len() - c,
        {
            assert(children@.contains(children@[c as int]));
            linked.push(m[children[c]].jid.clone());
            c += 1;
        }
        proof {
            assert(string_views(linked@) =~= jids_at(m@, children@));
        }
        nodes.push(make_node(&m[r], linked));
        let ghost root_node = nodes@[start as int];
        proof {
            assert(nodes@.subrange(0, start as int + 1) =~= nodes0.push(root_node));
        }
        let mut c: usize = 0;
        while c < children.len()
            invariant
                0 <= c <= children.len(),
                nodes@.len() == start + 1 + c,
                nodes@.subrange(0, start as int + 1) == nodes0.push(root_node),
                nodes0.len() == start,
                is_group_listing(m@, Some(m@[r as int].jid@), children@),
                forall|d: int|
                    0 <= d < c ==> node_of(nodes@[start + 1 + d], m@[#[trigger] children@[d] as int], Seq::empty()),
            decreases children.len() - c,
        {
            assert(children@.contains(children@[c as int]));
            let ghost prev = nodes@;
            let none: Vec<String> = Vec::new();
            proof {
                assert(string_views(none@) =~= Seq::<Seq<char>>::empty());
            }
            nodes.push(make_node(&m[children[c]], none));
            proof {
                assert(nodes@.subrange(0, start as int + 1) =~= prev.subrange(0, start as int + 1));
            }
            c += 1;
        }
        let ghost old_blocks = blocks;
        proof {
            blocks = blocks.push(children@);
            lemma_block_start_push(old_blocks, children@, i as int);
            assert forall|j: int| 0 <= j <= i implies block_start(blocks, j) == block_start(old_blocks, j) by {
                lemma_block_start_push(old_blocks, children@, j);
            }
            assert(block_start(blocks, i + 1) == block_start(old_blocks, i as int) + 1 + children@.len());
            assert forall|j: int| 0 <= j < i + 1 implies node_of(
                nodes@[block_start(blocks, j)],
                m@[#[trigger] roots@[j] as int],
                jids_at(m@, blocks[j]),
            ) by {
                if j < i {
                    lemma_block_start_grows(old_blocks, j, i as int);
                    assert(nodes@[block_start(blocks, j)] == nodes@.subrange(0, start as int + 1)[block_start(blocks, j)]);
                    assert(nodes@[block_start(blocks, j)] == nodes0[block_start(old_blocks, j)]);
                } else {
                    assert(nodes@[start as int] == nodes@.subrange(0, start as int + 1)[start as int]);
                    assert(block_start(blocks, j) == start);
                }
            }
            assert forall|j: int, c: int|
                0 <= j < i + 1 && 0 <= c < blocks[j].len() implies node_of(
                nodes@[block_start(blocks, j) + 1 + c],
                m@[#[trigger] blocks[j][c] as int],
                Seq::empty(),
            ) by {
                if j < i {
                    lemma_block_start_grows(old_blocks, j, i as int);
                    let at = block_start(blocks, j) + 1 + c;
                    assert(nodes@[at] == nodes@.subrange(0, start as int + 1)[at]);
                    assert(nodes@[at] == nodes0[block_start(old_blocks, j) + 1 + c]);
                } else {
                    assert(blocks[j] == children@);
                }
            }
        }
        i += 1;
    }
    proof {
        assert(lists_nodes(m@, roots@, blocks, nodes@));
    }
    nodes
}

/// Builds the community list from the reported records: merged one per
/// JID, then each community by name and JID, followed by its linked
/// groups by name and JID.
pub fn build_community_nodes(records: &[CommunityInfo]) -> (nodes: Vec<CommunityNode>)
    ensures
        exists|m: Seq<CommunityInfo>| is_merge(records@, m) && is_node_listing(m, nodes@),
{
    let m = merged_records(records);
    let nodes = community_nodes(m.as_slice());
    nodes
}

/// The linked groups of a node joined into one text, separated by NUL.
pub open spec fn joined_links(s: Seq<Seq<char>>) -> Seq<char>
    decreases s.len(),
{
    if s.len() == 0 {
        Seq::empty()
    } else if s.len() == 1 {
        s[0]
    } else {
        joined_links(s.drop_last()) + seq!['\0'] + s.last()
    }
}

/// The linked groups of a node as one text.
pub open spec fn links_text(n: CommunityNode) -> Seq<char> {
    joined_links(string_views(n.linked_groups@))
}

/// Two nodes carry the same metadata.
pub open spec fn same_node_key(a: CommunityNode, b: CommunityNode) -> bool {
    &&& a.is_joined == b.is_joined
    &&& a.name@ == b.name@
    &&& a.is_root == b.is_root
    &&& a.is_default_subgroup == b.is_default_subgroup
    &&& a.is_announce == b.is_announce
    &&& a.participant_count == b.participant_count
    &&& links_text(a) == links_text(b)
}

/// The order in which nodes of one JID are preferred: joined first, then
/// by name, communities first, default subgroups first, then by the
/// announcement flag, the participant count and the linked groups.
pub open spec fn node_less(a: CommunityNode, b: CommunityNode) -> bool {
    if a.is_joined != b.is_joined {
        bool_less(!a.is_joined, !b.is_joined)
    } else if a.name@ != b.name@ {
        text_less(a.name@, b.name@)
    } else if a.is_root != b.is_root {
        bool_less(!a.is_root, !b.is_root)
    } else if a.is_default_subgroup != b.is_default_subgroup {
        bool_less(!a.is_default_subgroup, !b.is_default_subgroup)
    } else if a.is_announce != b.is_announce {
        opt_bool_less(a.is_announce, b.is_announce)
    } else if a.participant_count != b.participant_count {
        opt_count_less(a.participant_count, b.participant_count)
    } else {
        text_less(links_text(a), links_text(b))
    }
}

proof fn lemma_node_less_total(a: CommunityNode, b: CommunityNode)
    ensures
        same_node_key(a, b) ==> !node_less(a, b) && !node_less(b, a),
        !same_node_key(a, b) ==> node_less(a, b) != node_less(b, a),
{
    lemma_text_less_total(a.name@, b.name@);
    lemma_text_less_total(links_text(a), links_text(b));
}

proof fn lemma_node_less_transitive(a: CommunityNode, b: CommunityNode, c: CommunityNode)
    requires
        node_less(a, b),
        node_less(b, c),
    ensures
        node_less(a, c),
{
    lemma_text_less_total(a.name@, b.name@);
    lemma_text_less_total(b.name@, c.name@);
    lemma_text_less_total(a.name@, c.name@);
    lemma_text_less_total(links_text(a), links_text(b));
    lemma_text_less_total(links_text(b), links_text(c));
    lemma_text_less_total(links_text(a), links_text(c));
    if a.name@ != b.name@ && b.name@ != c.name@ && text_less(a.name@, b.name@) && text_less(b.name@, c.name@) {
        lemma_text_less_transitive(a.name@, b.name@, c.name@);
    }
    if links_text(a) != links_text(b) && links_text(b) != links_text(c) && text_less(links_text(a), links_text(b))
        && text_less(links_text(b), links_text(c)) {
        lemma_text_less_transitive(links_text(a), links_text(b), links_text(c));
    }
}

fn join_links(n: &CommunityNode) -> (t: String)
    ensures
        t@ == links_text(*n),
{
    let mut t = String::new();
    let mut i: usize = 0;
    let ghost v = string_views(n.linked_groups@);
    while i < n.linked_groups.len()
        invariant
            0 <= i <= n.linked_groups.len(),
            v == string_views(n.linked_groups@),
            t@ == joined_links(v.take(i as int)),
        decreases n.linked_groups.len() - i,
    {
        proof {
            assert(v.take(i + 1).drop_last() =~= v.take(i as int));
            assert(v.take(i + 1).last() == n.linked_groups@[i as int]@);
        }
        if i > 0 {
            let sep = "\0";
            proof {
                reveal_strlit("\0");
            }
            t.append(sep);
        }
        t.append(n.linked_groups[i].as_str());
        proof {
            if i == 0 {
                assert(t@ =~= v.take(1)[0]);
            } else {
                assert(t@ =~= joined_links(v.take(i as int)) + seq!['\0'] + v.take(i + 1).last());
            }
        }
        i += 1;
    }
    proof {
        assert(v.take(n.linked_groups.len() as int) =~= v);
    }
    t
}

/// Whether node `a` is preferred over node `b` of the same JID.
pub fn node_sorts_before(a: &CommunityNode, b: &CommunityNode) -> (r: bool)
    ensures
        r == node_less(*a, *b),
{
    match bool_comparison(!a.is_joined, !b.is_joined) {
        Comparison::Less => return true,
        Comparison::Greater => return false,
        Comparison::Equal => {},
    }
    proof {
        lemma_text_less_total(a.name@, b.name@);
    }
    match compare_text(a.name.as_str(), b.name.as_str()) {
        Comparison::Less => return true,
        Comparison::Greater => return false,
        Comparison::Equal => {},
    }
    match bool_comparison(!a.is_root, !b.is_root) {
        Comparison::Less => return true,
        Comparison::Greater => return false,
        Comparison::Equal => {},
    }
    match bool_comparison(!a.is_default_subgroup, !b.is_default_subgroup) {
        Comparison::Less => return true,
        Comparison::Greater => return false,
        Comparison::Equal => {},
    }
    match (a.is_announce, b.is_announce) {
        (None, Some(_)) => return true,
        (Some(_), None) => return false,
        (Some(x), Some(y)) => {
            if x != y {
                return !x;
            }
        },
        (None, None) => {},
    }
    match (a.participant_count, b.participant_count) {
        (None, Some(_)) => return true,
        (Some(_), None) => return false,
        (Some(x), Some(y)) => {
            if x != y {
                return x < y;
            }
        },
        (None, None) => {},
    }
    let la = join_links(a);
    let lb = join_links(b);
    proof {
        lemma_text_less_total(la@, lb@);
    }
    compare_text(la.as_str(), lb.as_str()) == Comparison::Less
}

/// The first occurrences of a sequence are distinct.
pub proof fn lemma_first_occurrences_distinct(t: Seq<Seq<char>>)
    ensures
        forall|a: int, b: int|
            0 <= a < b < first_occurrences(t).len() ==> first_occurrences(t)[a] != first_occurrences(t)[b],
    decreases t.len(),
{
    if t.len() > 0 {
        lemma_first_occurrences_distinct(t.drop_last());
        let rest = first_occurrences(t.drop_last());
        if !rest.contains(t.last()) {
            let fo = rest.push(t.last());
            assert forall|a: int, b: int| 0 <= a < b < fo.len() implies fo[a] != fo[b] by {
                if b == rest.len() {
                    assert(fo[a] == rest[a]);
                } else {
                    assert(fo[a] == rest[a] && fo[b] == rest[b]);
                }
            }
        }
    }
}

/// The nodes at the candidate positions.
pub open spec fn picked(nodes: Seq<CommunityNode>, cand: Seq<usize>) -> Seq<CommunityNode> {
    cand.map_values(|c: usize| nodes[c as int])
}

/// The JIDs of the nodes.
pub open spec fn node_jids(s: Seq<CommunityNode>) -> Seq<Seq<char>> {
    s.map_values(|n: CommunityNode| n.jid@)
}

/// The two nodes have the same JID.
pub open spec fn same_node_jid(a: CommunityNode, b: CommunityNode) -> bool {
    a.jid@ == b.jid@
}

/// Node `i` is the one kept for its JID among the first `n` nodes: the
/// first of those preferred most.
pub open spec fn kept_node_among(s: Seq<CommunityNode>, i: int, n: int) -> bool {
    &&& 0 <= i < n <= s.len()
    &&& forall|j: int|
        0 <= j < n && #[trigger] same_node_jid(s[j], s[i]) ==> (j < i ==> node_less(s[i], s[j])) && (j >= i
            ==> !node_less(s[j], s[i]))
}

/// `x` is the candidate kept for its JID.
pub open spec fn kept_candidate(nodes: Seq<CommunityNode>, cand: Seq<usize>, x: usize) -> bool {
    exists|k: int|
        0 <= k < cand.len() && cand[k] == x && kept_node_among(picked(nodes, cand), k, cand.len() as int)
}

/// `r` holds one candidate per JID, in the order the JIDs first occur
/// among the candidates: the one preferred, the earliest of equals.
pub open spec fn is_dedupe(nodes: Seq<CommunityNode>, cand: Seq<usize>, r: Seq<usize>) -> bool {
    &&& r.map_values(|x: usize| nodes[x as int].jid@) == first_occurrences(node_jids(picked(nodes, cand)))
    &&& forall|a: int| 0 <= a < r.len() ==> #[trigger] kept_candidate(nodes, cand, r[a])
}

/// Keeps one node per JID among the candidate positions: where a JID
/// occurs more than once, the preferred node takes the place of the first.
pub fn dedupe_nodes(nodes: &[CommunityNode], cand: &[usize]) -> (r: Vec<usize>)
    requires
        forall|k: int| 0 <= k < cand.len() ==> (#[trigger] cand@[k] as int) < nodes.len(),
    ensures
        is_dedupe(nodes@, cand@, r@),
{
    let ghost s = picked(nodes@, cand@);
    let ghost js = node_jids(s);
    let mut slots: Vec<usize> = Vec::new();
    let mut i: usize = 0;
    while i < cand.len()
        invariant
            0 <= i <= cand.len(),
            s == picked(nodes@, cand@),
            js == node_jids(s),
            forall|k: int| 0 <= k < cand.len() ==> (#[trigger] cand@[k] as int) < nodes.len(),
            slots@.map_values(|k: usize| s[k as int].jid@) == first_occurrences(js.take(i as int)),
            forall|a: int| 0 <= a < slots.len() ==> kept_node_among(s, #[trigger] slots@[a] as int, i as int),
        decreases cand.len() - i,
    {
        let ghost before = slots@;
        let ghost fo = first_occurrences(js.take(i as int));
        proof {
            lemma_first_occurrences_distinct(js.take(i as int));
            assert(js.take(i + 1).drop_last() =~= js.take(i as int));
            assert(js.take(i + 1).last() == s[i as int].jid@);
        }
        let mut p: usize = 0;
        while p < slots.len()
            invariant
                0 <= p <= slots.len(),
                i < cand.len(),
                s == picked(nodes@, cand@),
                forall|k: int| 0 <= k < cand.len() ==> (#[trigger] cand@[k] as int) < nodes.len(),
                forall|a: int| 0 <= a < slots.len() ==> kept_node_among(s, #[trigger] slots@[a] as int, i as int),
                forall|q: int| 0 <= q < p ==> !same_node_jid(s[slots@[q] as int], s[i as int]),
            ensures
                p < slots.len() ==> same_node_jid(s[slots@[p as int] as int], s[i as int]),
            decreases slots.len() - p,
        {
            assert(kept_node_among(s, slots@[p as int] as int, i as int));
            if nodes[cand[slots[p]]].jid == nodes[cand[i]].jid {
                break;
            }
            p += 1;
        }
        if p < slots.len() {
            let c = slots[p];
            assert(kept_node_among(s, c as int, i as int));
            proof {
                assert(slots@.map_values(|k: usize| s[k as int].jid@)[p as int] == js[i as int]);
                assert(fo.contains(js[i as int]));
            }
            if node_sorts_before(&nodes[cand[i]], &nodes[cand[c]]) {
                slots.set(p, i);
                proof {
                    assert forall|j: int|
                        0 <= j < i + 1 && #[trigger] same_node_jid(s[j], s[i as int]) implies (j < i ==> node_less(
                            s[i as int],
                            s[j],
                        )) && (j >= i ==> !node_less(s[j], s[i as int])) by {
                        assert(same_node_jid(s[j], s[c as int]));
                        if j < c {
                            lemma_node_less_transitive(s[i as int], s[c as int], s[j]);
                        } else if c < j < i {
                            lemma_node_less_total(s[j], s[c as int]);
                            if same_node_key(s[j], s[c as int]) {
                                lemma_node_less_total(s[j], s[i as int]);
                                lemma_node_less_total(s[c as int], s[i as int]);
                                if !node_less(s[i as int], s[j]) {
                                    lemma_node_less_total(s[i as int], s[j]);
                                }
                            } else {
                                lemma_node_less_transitive(s[i as int], s[c as int], s[j]);
                            }
                        } else if j == c {
                        } else {
                            lemma_node_less_total(s[i as int], s[i as int]);
                        }
                    }
                }
            } else {
                proof {
                    assert forall|j: int|
                        0 <= j < i + 1 && #[trigger] same_node_jid(s[j], s[c as int]) implies (j < c ==> node_less(
                            s[c as int],
                            s[j],
                        )) && (j >= c ==> !node_less(s[j], s[c as int])) by {
                        if j < i {
                            assert(same_node_jid(s[j], s[c as int]));
                        }
                    }
                }
            }
            proof {
                assert(slots@.map_values(|k: usize| s[k as int].jid@) =~= before.map_values(|k: usize| s[k as int].jid@));
                assert(first_occurrences(js.take(i + 1)) == fo);
            }
        } else {
            slots.push(i);
            proof {
                assert(!fo.contains(js[i as int])) by {
                    if fo.contains(js[i as int]) {
                        let q = choose|q: int| 0 <= q < fo.len() && fo[q] == js[i as int];
                        assert(before.map_values(|k: usize| s[k as int].jid@)[q] == fo[q]);
                    }
                }
                assert(slots@.map_values(|k: usize| s[k as int].jid@) =~= fo.push(js[i as int]));
                assert forall|j: int|
                    0 <= j < i + 1 && #[trigger] same_node_jid(s[j], s[i as int]) implies (j < i ==> node_less(
                        s[i as int],
                        s[j],
                    )) && (j >= i ==> !node_less(s[j], s[i as int])) by {
                    if j < i {
                        assert(js.take(i as int)[j] == js[i as int]);
                        lemma_first_occurrences_contains(js.take(i as int), j);
                    } else {
                        lemma_node_less_total(s[i as int], s[i as int]);
                    }
                }
            }
        }
        proof {
            lemma_first_occurrences_distinct(js.take(i as int));
            assert forall|a: int| 0 <= a < slots.len() implies kept_node_among(s, #[trigger] slots@[a] as int, i + 1) by {
                if a != p {
                    let c = slots@[a] as int;
                    assert(slots@[a] == before[a]);
                    assert(kept_node_among(s, c, i as int));
                    assert forall|j: int|
                        0 <= j < i + 1 && #[trigger] same_node_jid(s[j], s[c]) implies (j < c ==> node_less(
                            s[c],
                            s[j],
                        )) && (j >= c ==> !node_less(s[j], s[c])) by {
                        if j == i {
                            if p < before.len() {
                                assert(before.map_values(|k: usize| s[k as int].jid@)[a] == fo[a]);
                                assert(before.map_values(|k: usize| s[k as int].jid@)[p as int] == fo[p as int]);
                                assert(same_node_jid(s[before[p as int] as int], s[i as int]));
                            } else {
                                assert(!same_node_jid(s[before[a] as int], s[i as int]));
                            }
                        }
                    }
                }
            }
        }
        i += 1;
    }
    let mut r: Vec<usize> = Vec::new();
    let mut a: usize = 0;
    while a < slots.len()
        invariant
            0 <= a <= slots.len(),
            r.len() == a,
            s == picked(nodes@, cand@),
            forall|k: int| 0 <= k < cand.len() ==> (#[trigger] cand@[k] as int) < nodes.len(),
            forall|b: int| 0 <= b < slots.len() ==> kept_node_among(s, #[trigger] slots@[b] as int, cand.len() as int),
            forall|b: int| 0 <= b < a ==> r@[b] == cand@[#[trigger] slots@[b] as int],
        decreases slots.len() - a,
    {
        assert(kept_node_among(s, slots@[a as int] as int, cand.len() as int));
        r.push(cand[slots[a]]);
        a += 1;
    }
    proof {
        assert(js.take(cand.len() as int) =~= js);
        assert(r@.map_values(|x: usize| nodes@[x as int].jid@) =~= slots@.map_values(|k: usize| s[k as int].jid@));
        assert forall|b: int| 0 <= b < r.len() implies #[trigger] kept_candidate(nodes@, cand@, r@[b]) by {
            assert(kept_node_among(s, slots@[b] as int, cand.len() as int));
        }
    }
    r
}

/// A value occurring in a sequence occurs among its first occurrences.
pub proof fn lemma_first_occurrences_contains(t: Seq<Seq<char>>, j: int)
    requires
        0 <= j < t.len(),
    ensures
        first_occurrences(t).contains(t[j]),
    decreases t.len(),
{
    if j < t.len() - 1 {
        lemma_first_occurrences_contains(t.drop_last(), j);
        assert(t.drop_last()[j] == t[j]);
        let rest = first_occurrences(t.drop_last());
        if !rest.contains(t.last()) {
            let q = choose|q: int| 0 <= q < rest.len() && rest[q] == t[j];
            assert(rest.push(t.last())[q] == t[j]);
        }
    } else {
        let rest = first_occurrences(t.drop_last());
        if !rest.contains(t.last()) {
            assert(rest.push(t.last())[rest.len() as int] == t[j]);
        }
    }
}

/// The positions among the first `n` nodes of the groups one can select:
/// joined groups, not communities.
pub open spec fn selectable_positions(nodes: Seq<CommunityNode>, n: int) -> Seq<usize>
    decreases n,
{
    if n <= 0 {
        Seq::empty()
    } else {
        let rest = selectable_positions(nodes, n - 1);
        if !nodes[n - 1].is_root && nodes[n - 1].is_joined {
            rest.push((n - 1) as usize)
        } else {
            rest
        }
    }
}

/// The JIDs of the selectable groups, in list order, each once.
pub open spec fn selectable_jids(nodes: Seq<CommunityNode>) -> Seq<Seq<char>> {
    first_occurrences(node_jids(picked(nodes, selectable_positions(nodes, nodes.len() as int))))
}

/// The positions of the selectable groups: joined groups, not communities,
/// one per JID.
pub fn selectable_community_nodes(nodes: &[CommunityNode]) -> (r: Vec<usize>)
    ensures
        is_dedupe(nodes@, selectable_positions(nodes@, nodes@.len() as int), r@),
        r@.map_values(|x: usize| nodes@[x as int].jid@) == selectable_jids(nodes@),
        forall|a: int| 0 <= a < r.len() ==> (#[trigger] r@[a] as int) < nodes.len(),
{
    let mut cand: Vec<usize> = Vec::new();
    let mut k: usize = 0;
    while k < nodes.len()
        invariant
            0 <= k <= nodes.len(),
            cand@ == selectable_positions(nodes@, k as int),
            forall|j: int| 0 <= j < cand.len() ==> (#[trigger] cand@[j] as int) < k,
        decreases nodes.len() - k,
    {
        if !nodes[k].is_root && nodes[k].is_joined {
            cand.push(k);
        }
        k += 1;
    }
    let r = dedupe_nodes(nodes, cand.as_slice());
    proof {
        assert forall|a: int| 0 <= a < r.len() implies (#[trigger] r@[a] as int) < nodes.len() by {
            assert(kept_candidate(nodes@, cand@, r@[a]));
        }
    }
    r
}

/// The JID of the selected group in the community list, if a selectable
/// group is selected.
pub fn get_selected_community(nodes: &[CommunityNode], state: &ListState) -> (r: Option<String>)
    ensures
        r is Some <==> (list_selection(*state) is Some && (list_selection(*state)->Some_0 as int) < selectable_jids(
            nodes@,
        ).len()),
        r is Some ==> r->Some_0@ == selectable_jids(nodes@)[list_selection(*state)->Some_0 as int],
{
    let selectable = selectable_community_nodes(nodes);
    match selected_index(state) {
        Some(i) => {
            if i < selectable.len() {
                let jid = nodes[selectable[i]].jid.clone();
                proof {
                    assert(selectable@.map_values(|x: usize| nodes@[x as int].jid@)[i as int] == jid@);
                }
                Some(jid)
            } else {
                None
            }
        },
        None => None,
    }
}

/// The selection for the group `jid` in the community list: its row if it
/// is selectable, else the first row, or nothing where none is selectable.
pub open spec fn community_selection(nodes: Seq<CommunityNode>, jid: Option<Seq<char>>) -> Option<usize> {
    let sel = selectable_jids(nodes);
    if jid is Some && sel.contains(jid->Some_0) {
        Some((choose|i: int| 0 <= i < sel.len() && sel[i] == jid->Some_0) as usize)
    } else if sel.len() > 0 {
        Some(0usize)
    } else {
        None
    }
}

/// Selects the group `jid` in the community list, or the first selectable
/// group, or nothing.
pub fn select_community_node(state: &mut ListState, nodes: &[CommunityNode], jid: Option<&str>)
    ensures
        list_selection(*final(state)) == community_selection(
            nodes@,
            match jid {
                Some(j) => Some(j@),
                None => None,
            },
        ),
{
    let selectable = selectable_community_nodes(nodes);
    let ghost sel = selectable_jids(nodes@);
    proof {
        lemma_first_occurrences_distinct(node_jids(picked(nodes@, selectable_positions(nodes@, nodes@.len() as int))));
    }
    match jid {
        Some(j) => {
            let mut i: usize = 0;
            while i < selectable.len()
                invariant
                    0 <= i <= selectable.len(),
                    jid == Some(j),
                    sel == selectable_jids(nodes@),
                    selectable@.map_values(|x: usize| nodes@[x as int].jid@) == sel,
                    forall|a: int| 0 <= a < selectable.len() ==> (#[trigger] selectable@[a] as int) < nodes.len(),
                    forall|a: int| 0 <= a < i ==> sel[a] != j@,
                    forall|a: int, b: int| 0 <= a < b < sel.len() ==> sel[a] != sel[b],
                decreases selectable.len() - i,
            {
                if compare_text(nodes[selectable[i]].jid.as_str(), j) == Comparison::Equal {
                    proof {
                        assert(sel[i as int] == j@);
                        let c = choose|c: int| 0 <= c < sel.len() && sel[c] == j@;
                        assert(c == i);
                    }
                    select_index(state, Some(i));
                    return;
                }
                proof {
                    assert(sel[i as int] == nodes@[selectable@[i as int] as int].jid@);
                }
                i += 1;
            }
        },
        None => {},
    }
    if selectable.len() > 0 {
        select_index(state, Some(0));
    } else {
        select_index(state, None);
    }
}

/// Why the communities could not be fetched.
#[derive(Debug)]
pub enum CommunitiesError {
    BridgeUnavailable,
    Failed(String),
}

/// The community list as last fetched.
#[derive(Debug)]
pub struct Communities {
    pub nodes: Vec<CommunityNode>,
    pub unavailable: bool,
    pub loaded: bool,
}

impl Communities {
    /// Nothing fetched yet.
    pub fn new() -> (c: Communities)
        ensures
            c.nodes@.len() == 0,
            !c.unavailable,
            !c.loaded,
    {
        Communities { nodes: Vec::new(), unavailable: false, loaded: false }
    }

    /// Takes a fetch result. A success replaces the list, and in the
    /// communities section keeps the selected group selected where it is
    /// still listed. A failure keeps the last list; the communities count
    /// as unavailable only if none was ever loaded.
    pub fn apply_community_result(
        &mut self,
        state: &mut ListState,
        in_communities_section: bool,
        result: Result<Vec<CommunityInfo>, CommunitiesError>,
    )
        ensures
            match result {
                Ok(records) => {
                    &&& exists|m: Seq<CommunityInfo>|
                        is_merge(records@, m) && is_node_listing(m, final(self).nodes@)
                    &&& !final(self).unavailable
                    &&& final(self).loaded
                    &&& in_communities_section ==> list_selection(*final(state)) == community_selection(
                        final(self).nodes@,
                        if list_selection(*old(state)) is Some && (list_selection(*old(state))->Some_0 as int)
                            < selectable_jids(old(self).nodes@).len() {
                            Some(selectable_jids(old(self).nodes@)[list_selection(*old(state))->Some_0 as int])
                        } else {
                            None
                        },
                    )
                    &&& !in_communities_section ==> list_selection(*final(state)) == list_selection(*old(state))
                },
                Err(_) => {
                    &&& final(self).nodes@ == old(self).nodes@
                    &&& final(self).unavailable == !old(self).loaded
                    &&& final(self).loaded == old(self).loaded
                    &&& list_selection(*final(state)) == list_selection(*old(state))
                },
            },
    {
        match result {
            Ok(records) => {
                let selected = if in_communities_section {
                    get_selected_community(self.nodes.as_slice(), state)
                } else {
                    None
                };
                self.nodes = build_community_nodes(records.as_slice());
                self.unavailable = false;
                self.loaded = true;
                if in_communities_section {
                    match &selected {
                        Some(j) => select_community_node(state, self.nodes.as_slice(), Some(j.as_str())),
                        None => select_community_node(state, self.nodes.as_slice(), None),
                    }
                }
            },
            Err(_) => {
                self.unavailable = !self.loaded;
            },
        }
    }
}

/// The group is where the community's announcements go: its default
/// subgroup, or a group marked as announcement-only.
pub open spec fn announcement_group(n: CommunityNode) -> bool {
    n.is_default_subgroup || n.is_announce == Some(true)
}

/// Whether the group carries the community's announcements.
pub fn is_announcement_group(node: &CommunityNode) -> (b: bool)
    ensures
        b == announcement_group(*node),
{
    node.is_default_subgroup || match node.is_announce {
        Some(a) => a,
        None => false,
    }
}

/// The label of a group in the chat list: "Announcements" for the
/// announcement group, else its name.
pub fn community_group_label(node: &CommunityNode) -> (label: String)
    ensures
        announcement_group(*node) ==> label@ == "Announcements"@,
        !announcement_group(*node) ==> label@ == node.name@,
{
    if is_announcement_group(node) {
        String::from_str("Announcements")
    } else {
        node.name.clone()
    }
}

/// Where the server reports a JID both as joined and as not joined, the
/// merged record of that JID is the joined one.
pub proof fn lemma_merge_prefers_joined(records: Seq<CommunityInfo>, m: Seq<CommunityInfo>, i: int, a: int)
    requires
        is_merge(records, m),
        0 <= i < records.len(),
        records[i].is_joined,
        0 <= a < m.len(),
        m[a].jid@ == records[i].jid@,
    ensures
        m[a].is_joined,
{
    assert(is_kept_record(records, m[a]));
    let k = choose|k: int| kept(records, k) && m[a] == records[k];
    assert(same_jid(records[i], records[k]));
    if !records[k].is_joined {
        if i < k {
            assert(record_less(records[k], records[i]));
        } else {
            assert(!record_less(records[i], records[k]));
        }
    }
}

} // verus!
