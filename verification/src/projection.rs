//! The chat list as shown: a community's linked groups, the rows of a
//! community's detail view, and the rows of the chat list, where the
//! joined groups of a community are shown as one row.
use vstd::prelude::*;
use vstd::string::StringExecFns;
use vstd::string::StrSliceExecFns;

use crate::avatar_window::{first_occurrences, string_views};
use crate::community::{
    announcement_group, community_group_label, dedupe_nodes, is_announcement_group, kept_candidate, node_jids,
    picked, CommunityNode, is_dedupe,
};
use crate::contacts::{canonical_name, contact_name};
use crate::mentions::{contains_text, lowercased, text_contains, to_lower};
use crate::navigation::{ChatRow, ContactRow};
use crate::text_order::{compare_text, text_less, Comparison, lemma_text_less_total, lemma_text_less_transitive};

verus! {

/// What a node shows, as plain values.
pub open spec fn node_view(n: CommunityNode) -> (
    Seq<char>,
    Seq<char>,
    bool,
    Seq<Seq<char>>,
    bool,
    bool,
    Option<bool>,
    Option<u32>,
) {
    (
        n.jid@,
        n.name@,
        n.is_root,
        string_views(n.linked_groups@),
        n.is_joined,
        n.is_default_subgroup,
        n.is_announce,
        n.participant_count,
    )
}

fn copy_strings(v: &Vec<String>) -> (c: Vec<String>)
    ensures
        string_views(c@) == string_views(v@),
{
    let mut c: Vec<String> = Vec::new();
    let mut i: usize = 0;
    while i < v.len()
        invariant
            0 <= i <= v.len(),
            c.len() == i,
            forall|j: int| 0 <= j < i ==> (#[trigger] c@[j])@ == v@[j]@,
        decreases v.len() - i,
    {
        c.push(v[i].clone());
        i += 1;
    }
    assert(string_views(c@) =~= string_views(v@));
    c
}

/// A copy of a node.
pub fn copy_node(n: &CommunityNode) -> (c: CommunityNode)
    ensures
        node_view(c) == node_view(*n),
{
    CommunityNode {
        jid: n.jid.clone(),
        name: n.name.clone(),
        is_root: n.is_root,
        linked_groups: copy_strings(&n.linked_groups),
        is_joined: n.is_joined,
        is_default_subgroup: n.is_default_subgroup,
        is_announce: n.is_announce,
        participant_count: n.participant_count,
    }
}

/// The positions of the nodes that are groups (not communities) with the
/// JID `jid`.
pub open spec fn group_positions(nodes: Seq<CommunityNode>, jid: Seq<char>, n: int) -> Seq<usize>
    decreases n,
{
    if n <= 0 {
        Seq::empty()
    } else {
        let rest = group_positions(nodes, jid, n - 1);
        if nodes[n - 1].jid@ == jid && !nodes[n - 1].is_root {
            rest.push((n - 1) as usize)
        } else {
            rest
        }
    }
}

proof fn lemma_first_occurrences_constant(t: Seq<Seq<char>>, v: Seq<char>)
    requires
        t.len() > 0,
        forall|i: int| 0 <= i < t.len() ==> t[i] == v,
    ensures
        first_occurrences(t) == seq![v],
    decreases t.len(),
{
    if t.len() == 1 {
        assert(t.drop_last() =~= Seq::<Seq<char>>::empty());
        assert(first_occurrences(t.drop_last()) =~= Seq::<Seq<char>>::empty());
        assert(seq![v] =~= Seq::<Seq<char>>::empty().push(v));
    } else {
        lemma_first_occurrences_constant(t.drop_last(), v);
        assert(seq![v][0] == v);
        assert(seq![v].contains(v));
    }
}

proof fn lemma_group_positions(nodes: Seq<CommunityNode>, jid: Seq<char>, n: int)
    requires
        0 <= n <= nodes.len(),
        n <= usize::MAX,
    ensures
        forall|k: int|
            0 <= k < group_positions(nodes, jid, n).len() ==> (#[trigger] group_positions(nodes, jid, n)[k] as int)
                < n && nodes[group_positions(nodes, jid, n)[k] as int].jid@ == jid,
    decreases n,
{
    if n > 0 {
        lemma_group_positions(nodes, jid, n - 1);
        let rest = group_positions(nodes, jid, n - 1);
        let gp = group_positions(nodes, jid, n);
        assert forall|k: int| 0 <= k < gp.len() implies (#[trigger] gp[k] as int) < n && nodes[gp[k] as int].jid@
            == jid by {
            if nodes[n - 1].jid@ == jid && !nodes[n - 1].is_root {
                assert(gp == rest.push((n - 1) as usize));
                if k < rest.len() {
                    assert(gp[k] == rest[k]);
                } else {
                    assert(gp[k] == (n - 1) as usize);
                }
            } else {
                assert(gp == rest);
            }
        }
    }
}

/// The node the community list shows for a group: the preferred of the
/// group nodes with its JID, if there is one.
pub open spec fn preferred_group(nodes: Seq<CommunityNode>, jid: Seq<char>, x: Option<usize>) -> bool {
    let cand = group_positions(nodes, jid, nodes.len() as int);
    match x {
        Some(p) => kept_candidate(nodes, cand, p),
        None => cand.len() == 0,
    }
}

/// Finds the preferred group node with the JID `jid`.
pub fn preferred_group_node(nodes: &[CommunityNode], jid: &str) -> (r: Option<usize>)
    ensures
        preferred_group(nodes@, jid@, r),
        r matches Some(p) ==> (p as int) < nodes.len() && nodes@[p as int].jid@ == jid@,
{
    let mut cand: Vec<usize> = Vec::new();
    let mut k: usize = 0;
    while k < nodes.len()
        invariant
            0 <= k <= nodes.len(),
            cand@ == group_positions(nodes@, jid@, k as int),
        decreases nodes.len() - k,
    {
        if !nodes[k].is_root && compare_text(nodes[k].jid.as_str(), jid) == Comparison::Equal {
            cand.push(k);
        }
        k += 1;
    }
    proof {
        lemma_group_positions(nodes@, jid@, nodes.len() as int);
    }
    let r = dedupe_nodes(nodes, cand.as_slice());
    if r.len() == 0 {
        proof {
            if cand.len() > 0 {
                let js = node_jids(picked(nodes@, cand@));
                assert(js.len() > 0);
                assert forall|i: int| 0 <= i < js.len() implies js[i] == jid@ by {
                    assert(nodes@[cand@[i] as int].jid@ == jid@);
                }
                lemma_first_occurrences_constant(js, jid@);
                assert(r@.map_values(|x: usize| nodes@[x as int].jid@).len() == 1);
            }
        }
        None
    } else {
        proof {
            assert(kept_candidate(nodes@, cand@, r@[0]));
            let k = choose|k: int|
                0 <= k < cand@.len() && cand@[k] == r@[0] && crate::community::kept_node_among(
                    picked(nodes@, cand@),
                    k,
                    cand@.len() as int,
                );
            assert(nodes@[cand@[k] as int].jid@ == jid@);
        }
        Some(r[0])
    }
}

/// The node shown for a linked group: the preferred group node with its
/// JID, or, where there is none, a joined group named by the fallback of
/// the JID's first link.
pub open spec fn group_shown(
    nodes: Seq<CommunityNode>,
    links: Seq<Seq<char>>,
    fallback: Seq<Seq<char>>,
    g: CommunityNode,
) -> bool {
    let j = g.jid@;
    ||| exists|p: usize| #[trigger] preferred_group(nodes, j, Some(p)) && node_view(g) == node_view(nodes[p as int])
    ||| (preferred_group(nodes, j, None) && exists|k: int|
        0 <= k < links.len() && #[trigger] links[k] == j && (forall|m: int| 0 <= m < k ==> links[m] != j)
            && node_view(g) == (
            j,
            fallback[k],
            false,
            Seq::<Seq<char>>::empty(),
            true,
            false,
            None::<bool>,
            None::<u32>,
        ))
}

/// The nodes of a community's linked groups, each JID once in the order
/// first linked (`fallback` holds the contact name of each link).
pub open spec fn linked_group_spec(
    nodes: Seq<CommunityNode>,
    links: Seq<Seq<char>>,
    fallback: Seq<Seq<char>>,
    groups: Seq<CommunityNode>,
) -> bool {
    &&& node_jids(groups) == first_occurrences(links)
    &&& forall|i: int| 0 <= i < groups.len() ==> #[trigger] group_shown(nodes, links, fallback, groups[i])
}

proof fn lemma_group_shown_extends(
    nodes: Seq<CommunityNode>,
    links: Seq<Seq<char>>,
    fallback: Seq<Seq<char>>,
    k: int,
    g: CommunityNode,
)
    requires
        0 <= k < links.len(),
        k < fallback.len(),
        group_shown(nodes, links.take(k), fallback.take(k), g),
    ensures
        group_shown(nodes, links.take(k + 1), fallback.take(k + 1), g),
{
    let j = g.jid@;
    if !(exists|p: usize| #[trigger] preferred_group(nodes, j, Some(p)) && node_view(g) == node_view(nodes[p as int])) {
        let lk = links.take(k);
        let fk = fallback.take(k);
        let q = choose|q: int|
            0 <= q < lk.len() && #[trigger] lk[q] == j && (forall|m: int| 0 <= m < q ==> lk[m] != j) && node_view(g)
                == (j, fk[q], false, Seq::<Seq<char>>::empty(), true, false, None::<bool>, None::<u32>);
        let lk1 = links.take(k + 1);
        let fk1 = fallback.take(k + 1);
        assert(lk1[q] == lk[q]);
        assert(fk1[q] == fk[q]);
        assert forall|m: int| 0 <= m < q implies lk1[m] != j by {
            assert(lk1[m] == lk[m]);
        }
        assert(0 <= q < lk1.len() && lk1[q] == j && (forall|m: int| 0 <= m < q ==> lk1[m] != j) && node_view(g)
            == (j, fk1[q], false, Seq::<Seq<char>>::empty(), true, false, None::<bool>, None::<u32>));
    }
}

/// The linked groups of a community, as nodes.
pub fn linked_group_nodes(root_links: &Vec<String>, nodes: &[CommunityNode], fallback_names: &[String]) -> (groups:
    Vec<CommunityNode>)
    requires
        fallback_names.len() == root_links.len(),
    ensures
        linked_group_spec(nodes@, string_views(root_links@), string_views(fallback_names@), groups@),
{
    let ghost links = string_views(root_links@);
    let ghost fallback = string_views(fallback_names@);
    let mut groups: Vec<CommunityNode> = Vec::new();
    proof {
        assert(links.take(0) =~= Seq::<Seq<char>>::empty());
        assert(node_jids(groups@) =~= Seq::<Seq<char>>::empty());
    }
    let mut k: usize = 0;
    while k < root_links.len()
        invariant
            0 <= k <= root_links.len(),
            fallback_names.len() == root_links.len(),
            links == string_views(root_links@),
            fallback == string_views(fallback_names@),
            linked_group_spec(nodes@, links.take(k as int), fallback.take(k as int), groups@),
        decreases root_links.len() - k,
    {
        let ghost before = groups@;
        let ghost lk = links.take(k + 1);
        let ghost fk = fallback.take(k + 1);
        let jid = root_links[k].as_str();
        proof {
            assert(lk.drop_last() =~= links.take(k as int));
            assert(lk.last() == jid@);
            assert(lk[k as int] == jid@);
            assert(fk[k as int] == fallback_names@[k as int]@);
        }
        let mut g: usize = 0;
        while g < groups.len()
            invariant
                0 <= g <= groups.len(),
                forall|m: int| 0 <= m < g ==> groups@[m].jid@ != jid@,
            ensures
                g < groups.len() ==> groups@[g as int].jid@ == jid@,
                g == groups.len() ==> forall|m: int| 0 <= m < groups.len() ==> groups@[m].jid@ != jid@,
            decreases groups.len() - g,
        {
            if compare_text(groups[g].jid.as_str(), jid) == Comparison::Equal {
                break;
            }
            g += 1;
        }
        let ghost fo = first_occurrences(links.take(k as int));
        proof {
            assert(node_jids(before) == fo);
            if g < groups.len() {
                assert(node_jids(before)[g as int] == jid@);
                assert(fo.contains(jid@));
            } else {
                if fo.contains(jid@) {
                    let m = choose|m: int| 0 <= m < fo.len() && fo[m] == jid@;
                    assert(node_jids(before)[m] == groups@[m].jid@);
                }
                assert(!fo.contains(jid@));
            }
            assert forall|i: int| 0 <= i < before.len() implies #[trigger] group_shown(nodes@, lk, fk, before[i]) by {
                assert(group_shown(nodes@, links.take(k as int), fallback.take(k as int), before[i]));
                lemma_group_shown_extends(nodes@, links, fallback, k as int, before[i]);
            }
        }
        if g == groups.len() {
            let node = match preferred_group_node(nodes, jid) {
                Some(p) => {
                    let c = copy_node(&nodes[p]);
                    proof {
                        assert(preferred_group(nodes@, c.jid@, Some(p)) && node_view(c) == node_view(nodes@[p as int]));
                        assert(group_shown(nodes@, lk, fk, c));
                    }
                    c
                },
                None => {
                    let none: Vec<String> = Vec::new();
                    let c = CommunityNode {
                        jid: String::from_str(jid),
                        name: fallback_names[k].clone(),
                        is_root: false,
                        linked_groups: none,
                        is_joined: true,
                        is_default_subgroup: false,
                        is_announce: None,
                        participant_count: None,
                    };
                    proof {
                        assert(string_views(none@) =~= Seq::<Seq<char>>::empty());
                        assert forall|m: int| 0 <= m < k implies lk[m] != jid@ by {
                            assert(lk[m] == links.take(k as int)[m]);
                            if lk[m] == jid@ {
                                crate::community::lemma_first_occurrences_contains(links.take(k as int), m);
                            }
                        }
                        assert(node_view(c) == (
                            jid@,
                            fk[k as int],
                            false,
                            Seq::<Seq<char>>::empty(),
                            true,
                            false,
                            None::<bool>,
                            None::<u32>,
                        ));
                        assert(group_shown(nodes@, lk, fk, c));
                    }
                    c
                },
            };
            groups.push(node);
            proof {
                assert(node_jids(groups@) =~= fo.push(jid@));
                assert(first_occurrences(lk) == fo.push(jid@));
                assert forall|i: int| 0 <= i < groups@.len() implies #[trigger] group_shown(nodes@, lk, fk, groups@[i]) by {
                    if i < before.len() {
                        assert(groups@[i] == before[i]);
                    }
                }
            }
        } else {
            proof {
                assert(first_occurrences(lk) == fo);
            }
        }
        k += 1;
    }
    proof {
        assert(links.take(root_links.len() as int) =~= links);
        assert(fallback.take(root_links.len() as int) =~= fallback);
    }
    groups
}

/// The positions of the nodes with the JID `jid`, communities included.
pub open spec fn jid_positions(nodes: Seq<CommunityNode>, jid: Seq<char>, n: int) -> Seq<usize>
    decreases n,
{
    if n <= 0 {
        Seq::empty()
    } else {
        let rest = jid_positions(nodes, jid, n - 1);
        if nodes[n - 1].jid@ == jid {
            rest.push((n - 1) as usize)
        } else {
            rest
        }
    }
}

proof fn lemma_jid_positions(nodes: Seq<CommunityNode>, jid: Seq<char>, n: int)
    requires
        0 <= n <= nodes.len(),
        n <= usize::MAX,
    ensures
        forall|k: int|
            0 <= k < jid_positions(nodes, jid, n).len() ==> (#[trigger] jid_positions(nodes, jid, n)[k] as int) < n
                && nodes[jid_positions(nodes, jid, n)[k] as int].jid@ == jid,
    decreases n,
{
    if n > 0 {
        lemma_jid_positions(nodes, jid, n - 1);
        let rest = jid_positions(nodes, jid, n - 1);
        let gp = jid_positions(nodes, jid, n);
        assert forall|k: int| 0 <= k < gp.len() implies (#[trigger] gp[k] as int) < n && nodes[gp[k] as int].jid@
            == jid by {
            if nodes[n - 1].jid@ == jid {
                assert(gp == rest.push((n - 1) as usize));
                if k < rest.len() {
                    assert(gp[k] == rest[k]);
                } else {
                    assert(gp[k] == (n - 1) as usize);
                }
            } else {
                assert(gp == rest);
            }
        }
    }
}

/// The node shown for the JID `jid`: the preferred of all nodes with it.
pub open spec fn preferred_node(nodes: Seq<CommunityNode>, jid: Seq<char>, x: Option<usize>) -> bool {
    let cand = jid_positions(nodes, jid, nodes.len() as int);
    match x {
        Some(p) => kept_candidate(nodes, cand, p),
        None => cand.len() == 0,
    }
}

/// Finds the preferred node with the JID `jid`.
pub fn preferred_node_with_jid(nodes: &[CommunityNode], jid: &str) -> (r: Option<usize>)
    ensures
        preferred_node(nodes@, jid@, r),
        r matches Some(p) ==> (p as int) < nodes.len() && nodes@[p as int].jid@ == jid@,
{
    let mut cand: Vec<usize> = Vec::new();
    let mut k: usize = 0;
    while k < nodes.len()
        invariant
            0 <= k <= nodes.len(),
            cand@ == jid_positions(nodes@, jid@, k as int),
        decreases nodes.len() - k,
    {
        if compare_text(nodes[k].jid.as_str(), jid) == Comparison::Equal {
            cand.push(k);
        }
        k += 1;
    }
    proof {
        lemma_jid_positions(nodes@, jid@, nodes.len() as int);
    }
    let r = dedupe_nodes(nodes, cand.as_slice());
    if r.len() == 0 {
        proof {
            if cand.len() > 0 {
                let js = node_jids(picked(nodes@, cand@));
                assert forall|i: int| 0 <= i < js.len() implies js[i] == jid@ by {
                    assert(nodes@[cand@[i] as int].jid@ == jid@);
                }
                lemma_first_occurrences_constant(js, jid@);
                assert(r@.map_values(|x: usize| nodes@[x as int].jid@).len() == 1);
            }
        }
        None
    } else {
        proof {
            assert(kept_candidate(nodes@, cand@, r@[0]));
            let k = choose|k: int|
                0 <= k < cand@.len() && cand@[k] == r@[0] && crate::community::kept_node_among(
                    picked(nodes@, cand@),
                    k,
                    cand@.len() as int,
                );
            assert(nodes@[cand@[k] as int].jid@ == jid@);
        }
        Some(r[0])
    }
}

/// The saved name of `jid` in the contact list, the first entry for it.
pub open spec fn saved_name(contacts: Seq<(String, String)>, jid: Seq<char>) -> Option<Seq<char>>
    decreases contacts.len(),
{
    if contacts.len() == 0 {
        None
    } else if contacts[0].0@ == jid {
        Some(contacts[0].1@)
    } else {
        saved_name(contacts.drop_first(), jid)
    }
}

/// The name shown for `jid`: its canonical saved name, or the JID.
pub open spec fn display_name(contacts: Seq<(String, String)>, jid: Seq<char>) -> Seq<char> {
    match saved_name(contacts, jid) {
        Some(n) => canonical_name(n),
        None => jid,
    }
}

/// The name shown for `jid`, from the saved contacts.
pub fn display_name_of(contacts: &[(String, String)], jid: &str) -> (r: String)
    ensures
        r@ == display_name(contacts@, jid@),
{
    let mut i: usize = 0;
    assert(contacts@.skip(0) =~= contacts@);
    while i < contacts.len()
        invariant
            0 <= i <= contacts.len(),
            saved_name(contacts@.skip(i as int), jid@) == saved_name(contacts@, jid@),
        decreases contacts.len() - i,
    {
        proof {
            assert(contacts@.skip(i as int)[0] == contacts@[i as int]);
            assert(contacts@.skip(i as int).drop_first() =~= contacts@.skip(i + 1));
        }
        if compare_text(contacts[i].0.as_str(), jid) == Comparison::Equal {
            return contact_name(Some(contacts[i].1.as_str()), jid);
        }
        i += 1;
    }
    proof {
        assert(contacts@.skip(i as int) =~= Seq::<(String, String)>::empty());
    }
    contact_name(None, jid)
}

/// The order of groups in a detail view: by name, then by JID.
pub open spec fn node_name_less(a: CommunityNode, b: CommunityNode) -> bool {
    text_less(a.name@, b.name@) || (a.name@ == b.name@ && text_less(a.jid@, b.jid@))
}

proof fn lemma_node_name_total(a: CommunityNode, b: CommunityNode)
    requires
        a.jid@ != b.jid@,
    ensures
        node_name_less(a, b) != node_name_less(b, a),
{
    lemma_text_less_total(a.name@, b.name@);
    lemma_text_less_total(a.jid@, b.jid@);
}

proof fn lemma_node_name_transitive(a: CommunityNode, b: CommunityNode, c: CommunityNode)
    requires
        node_name_less(a, b),
        node_name_less(b, c),
    ensures
        node_name_less(a, c),
{
    lemma_text_less_total(a.name@, b.name@);
    lemma_text_less_total(b.name@, c.name@);
    lemma_text_less_total(a.name@, c.name@);
    if text_less(a.name@, b.name@) && text_less(b.name@, c.name@) {
        lemma_text_less_transitive(a.name@, b.name@, c.name@);
    }
    if a.name@ == b.name@ && b.name@ == c.name@ {
        lemma_text_less_transitive(a.jid@, b.jid@, c.jid@);
    }
}

fn node_name_before(a: &CommunityNode, b: &CommunityNode) -> (r: bool)
    ensures
        r == node_name_less(*a, *b),
{
    proof {
        lemma_text_less_total(a.name@, b.name@);
        lemma_text_less_total(a.jid@, b.jid@);
    }
    match compare_text(a.name.as_str(), b.name.as_str()) {
        Comparison::Less => true,
        Comparison::Greater => false,
        Comparison::Equal => compare_text(a.jid.as_str(), b.jid.as_str()) == Comparison::Less,
    }
}

/// The JIDs of the nodes are distinct.
pub open spec fn distinct_node_jids(g: Seq<CommunityNode>) -> bool {
    forall|a: int, b: int| 0 <= a < b < g.len() ==> g[a].jid@ != g[b].jid@
}

/// `order` lists every position of `g` once, by name and JID.
pub open spec fn is_name_order(g: Seq<CommunityNode>, order: Seq<usize>) -> bool {
    &&& forall|x: usize| order.contains(x) <==> (x as int) < g.len()
    &&& forall|a: int, b: int| 0 <= a < b < order.len() ==> node_name_less(g[order[a] as int], g[order[b] as int])
}

/// The positions of the groups by name and JID.
fn name_order(g: &Vec<CommunityNode>) -> (order: Vec<usize>)
    requires
        distinct_node_jids(g@),
    ensures
        is_name_order(g@, order@),
{
    let mut order: Vec<usize> = Vec::new();
    let mut k: usize = 0;
    while k < g.len()
        invariant
            0 <= k <= g.len(),
            distinct_node_jids(g@),
            forall|x: usize| order@.contains(x) <==> x < k,
            forall|a: int, b: int|
                0 <= a < b < order.len() ==> node_name_less(g@[order@[a] as int], g@[order@[b] as int]),
        decreases g.len() - k,
    {
        assert forall|a: int| 0 <= a < order.len() implies (order@[a] as int) < k by {
            assert(order@.contains(order@[a]));
        }
        let mut p: usize = 0;
        while p < order.len()
            invariant
                0 <= p <= order.len(),
                k < g.len(),
                distinct_node_jids(g@),
                forall|a: int| 0 <= a < order.len() ==> (order@[a] as int) < k,
                forall|a: int| 0 <= a < p ==> node_name_less(g@[order@[a] as int], g@[k as int]),
            ensures
                p < order.len() ==> node_name_less(g@[k as int], g@[order@[p as int] as int]),
            decreases order.len() - p,
        {
            let x = order[p];
            if node_name_before(&g[k], &g[x]) {
                break;
            }
            proof {
                lemma_node_name_total(g@[k as int], g@[x as int]);
            }
            p += 1;
        }
        let ghost before = order@;
        proof {
            assert forall|a: int| p <= a < before.len() implies node_name_less(
                g@[k as int],
                g@[before[a] as int],
            ) by {
                if a > p {
                    lemma_node_name_transitive(g@[k as int], g@[before[p as int] as int], g@[before[a] as int]);
                }
            }
        }
        order.insert(p, k);
        proof {
            assert(order@ == before.insert(p as int, k));
            assert forall|a: int, b: int|
                0 <= a < b < order@.len() implies node_name_less(g@[order@[a] as int], g@[order@[b] as int]) by {
                if a < p as int && b < p as int {
                    assert(order@[a] == before[a] && order@[b] == before[b]);
                } else if a < p as int && b == p as int {
                    assert(order@[a] == before[a]);
                } else if a < p as int {
                    assert(order@[a] == before[a] && order@[b] == before[b - 1]);
                } else if a == p as int {
                    assert(order@[b] == before[b - 1]);
                } else {
                    assert(order@[a] == before[a - 1] && order@[b] == before[b - 1]);
                }
            }
            assert forall|x: usize| order@.contains(x) <==> x < k + 1 by {
                if order@.contains(x) {
                    let i = choose|i: int| 0 <= i < order@.len() && order@[i] == x;
                    if i < p as int {
                        assert(before[i] == x);
                        assert(before.contains(x));
                    } else if i > p as int {
                        assert(before[i - 1] == x);
                        assert(before.contains(x));
                    }
                }
                if x < k + 1 {
                    if x == k {
                        assert(order@[p as int] == k);
                    } else {
                        assert(before.contains(x));
                        let i = choose|i: int| 0 <= i < before.len() && before[i] == x;
                        if i < p as int {
                            assert(order@[i] == x);
                        } else {
                            assert(order@[i + 1] == x);
                        }
                    }
                }
            }
        }
        k += 1;
    }
    order
}

/// `jid` is one of the known chats.
pub open spec fn in_chats(chats: Seq<String>, jid: Seq<char>) -> bool {
    string_views(chats).contains(jid)
}

/// Whether `jid` is one of the known chats.
pub fn in_chat_list(chats: &[String], jid: &str) -> (b: bool)
    ensures
        b == in_chats(chats@, jid@),
{
    let mut i: usize = 0;
    while i < chats.len()
        invariant
            0 <= i <= chats.len(),
            forall|j: int| 0 <= j < i ==> chats@[j]@ != jid@,
        decreases chats.len() - i,
    {
        if compare_text(chats[i].as_str(), jid) == Comparison::Equal {
            assert(string_views(chats@)[i as int] == jid@);
            return true;
        }
        i += 1;
    }
    proof {
        if string_views(chats@).contains(jid@) {
            let k = choose|k: int| 0 <= k < chats@.len() && string_views(chats@)[k] == jid@;
            assert(chats@[k]@ == jid@);
        }
    }
    false
}

/// The order in which announcement groups compete for the announcement
/// row: default subgroups first, then announcement-only groups, then by
/// name and JID.
pub open spec fn ann_key_less(a: CommunityNode, b: CommunityNode) -> bool {
    if a.is_default_subgroup != b.is_default_subgroup {
        a.is_default_subgroup
    } else if (a.is_announce == Some(true)) != (b.is_announce == Some(true)) {
        a.is_announce == Some(true)
    } else {
        node_name_less(a, b)
    }
}

proof fn lemma_ann_key_total(a: CommunityNode, b: CommunityNode)
    requires
        a.jid@ != b.jid@,
    ensures
        ann_key_less(a, b) != ann_key_less(b, a),
{
    lemma_node_name_total(a, b);
}

proof fn lemma_ann_key_transitive(a: CommunityNode, b: CommunityNode, c: CommunityNode)
    requires
        ann_key_less(a, b),
        ann_key_less(b, c),
    ensures
        ann_key_less(a, c),
{
    if node_name_less(a, b) && node_name_less(b, c) {
        lemma_node_name_transitive(a, b, c);
    }
}

fn ann_key_before(a: &CommunityNode, b: &CommunityNode) -> (r: bool)
    ensures
        r == ann_key_less(*a, *b),
{
    if a.is_default_subgroup != b.is_default_subgroup {
        return a.is_default_subgroup;
    }
    let a_ann = match a.is_announce {
        Some(x) => x,
        None => false,
    };
    let b_ann = match b.is_announce {
        Some(x) => x,
        None => false,
    };
    if a_ann != b_ann {
        return a_ann;
    }
    node_name_before(a, b)
}

/// A group that may be shown as the announcement row.
pub open spec fn ann_candidate(g: CommunityNode, chats: Seq<String>) -> bool {
    announcement_group(g) && in_chats(chats, g.jid@)
}

/// `ann` is the group shown as the announcement row: the first in the
/// announcement order among the announcement groups that are known
/// chats; none where there is no such group.
pub open spec fn is_announcement_choice(g: Seq<CommunityNode>, chats: Seq<String>, ann: Option<usize>) -> bool {
    match ann {
        None => forall|i: int| 0 <= i < g.len() ==> !ann_candidate(#[trigger] g[i], chats),
        Some(a) => {
            &&& (a as int) < g.len()
            &&& ann_candidate(g[a as int], chats)
            &&& forall|i: int|
                0 <= i < g.len() && i != a && ann_candidate(#[trigger] g[i], chats) ==> ann_key_less(
                    g[a as int],
                    g[i],
                )
        },
    }
}

fn choose_announcement(g: &Vec<CommunityNode>, chats: &[String]) -> (ann: Option<usize>)
    requires
        distinct_node_jids(g@),
    ensures
        is_announcement_choice(g@, chats@, ann),
{
    let mut best: Option<usize> = None;
    let mut i: usize = 0;
    while i < g.len()
        invariant
            0 <= i <= g.len(),
            distinct_node_jids(g@),
            match best {
                None => forall|j: int| 0 <= j < i ==> !ann_candidate(#[trigger] g@[j], chats@),
                Some(a) => (a as int) < i && ann_candidate(g@[a as int], chats@) && forall|j: int|
                    0 <= j < i && j != a && ann_candidate(#[trigger] g@[j], chats@) ==> ann_key_less(
                        g@[a as int],
                        g@[j],
                    ),
            },
        decreases g.len() - i,
    {
        if is_announcement_group(&g[i]) && in_chat_list(chats, g[i].jid.as_str()) {
            match best {
                None => {
                    best = Some(i);
                },
                Some(a) => {
                    if ann_key_before(&g[i], &g[a]) {
                        proof {
                            assert forall|j: int|
                                0 <= j < i + 1 && j != i && ann_candidate(#[trigger] g@[j], chats@) implies ann_key_less(
                                g@[i as int],
                                g@[j],
                            ) by {
                                if j != a {
                                    lemma_ann_key_transitive(g@[i as int], g@[a as int], g@[j]);
                                }
                            }
                        }
                        best = Some(i);
                    } else {
                        proof {
                            lemma_ann_key_total(g@[i as int], g@[a as int]);
                        }
                    }
                },
            }
        }
        i += 1;
    }
    best
}

/// The positions, in `order`, of the joined groups that are known chats,
/// other than the announcement group.
pub open spec fn joined_positions(
    g: Seq<CommunityNode>,
    order: Seq<usize>,
    chats: Seq<String>,
    ann_jid: Option<Seq<char>>,
) -> Seq<usize>
    decreases order.len(),
{
    if order.len() == 0 {
        Seq::empty()
    } else {
        let rest = joined_positions(g, order.drop_last(), chats, ann_jid);
        let x = order.last();
        if g[x as int].is_joined && in_chats(chats, g[x as int].jid@) && ann_jid != Some(g[x as int].jid@) {
            rest.push(x)
        } else {
            rest
        }
    }
}

/// The positions, in `order`, of the groups one can join, other than the
/// announcement group.
pub open spec fn joinable_positions(g: Seq<CommunityNode>, order: Seq<usize>, ann_jid: Option<Seq<char>>) -> Seq<
    usize,
>
    decreases order.len(),
{
    if order.len() == 0 {
        Seq::empty()
    } else {
        let rest = joinable_positions(g, order.drop_last(), ann_jid);
        let x = order.last();
        if !g[x as int].is_joined && ann_jid != Some(g[x as int].jid@) {
            rest.push(x)
        } else {
            rest
        }
    }
}

/// The row opens the chat of the group.
pub open spec fn chat_row_of(r: ContactRow, g: CommunityNode) -> bool {
    r matches ContactRow::Chat(c) && c.label@ == g.name@ && string_views(c.members@) == seq![g.jid@] && c.target@
        == g.jid@
}

/// The row is the announcement row of the group.
pub open spec fn announcement_row_of(r: ContactRow, g: CommunityNode) -> bool {
    r matches ContactRow::VirtualAnnouncement(c) && c.label@ == "Announcements"@ && string_views(c.members@)
        == seq![g.jid@] && c.target@ == g.jid@
}

/// The row offers to join the group; a group without a JID has none.
pub open spec fn available_row_of(r: ContactRow, g: CommunityNode) -> bool {
    r matches ContactRow::Available { name, jid, participant_count } && name@ == g.name@ && participant_count
        == g.participant_count && (if g.jid@.len() == 0 {
        jid is None
    } else {
        jid is Some && jid->Some_0@ == g.jid@
    })
}

/// The row is a header with the text.
pub open spec fn header_row(r: ContactRow, text: Seq<char>) -> bool {
    r matches ContactRow::Header(h) && h@ == text
}

/// The row is an action with the text.
pub open spec fn action_row(r: ContactRow, text: Seq<char>) -> bool {
    r matches ContactRow::Action(h) && h@ == text
}

/// The detail rows of the groups `g`: the announcement row, if any; the
/// groups you're in; the action to add a group; the groups you can join;
/// each part in `order`.
pub open spec fn detail_layout(
    g: Seq<CommunityNode>,
    chats: Seq<String>,
    order: Seq<usize>,
    ann: Option<usize>,
    rows: Seq<ContactRow>,
) -> bool {
    let ann_jid = match ann {
        Some(a) => Some(g[a as int].jid@),
        None => None,
    };
    let joined = joined_positions(g, order, chats, ann_jid);
    let joinable = joinable_positions(g, order, ann_jid);
    let h: int = if ann is Some {
        1
    } else {
        0
    };
    &&& rows.len() == h + 3 + joined.len() + joinable.len()
    &&& ann matches Some(a) ==> announcement_row_of(rows[0], g[a as int])
    &&& header_row(rows[h], "Groups you're in"@)
    &&& forall|i: int| 0 <= i < joined.len() ==> chat_row_of(rows[h + 1 + i], g[#[trigger] joined[i] as int])
    &&& action_row(rows[h + 1 + joined.len()], "Add group"@)
    &&& header_row(rows[h + 2 + joined.len()], "Groups you can join"@)
    &&& forall|i: int|
        0 <= i < joinable.len() ==> available_row_of(
            rows[h + 3 + joined.len() + i],
            g[#[trigger] joinable[i] as int],
        )
}

fn single(jid: &String) -> (v: Vec<String>)
    ensures
        string_views(v@) == seq![jid@],
{
    let mut v: Vec<String> = Vec::new();
    v.push(jid.clone());
    assert(string_views(v@) =~= seq![jid@]);
    v
}

/// Lays out the detail rows of the groups in `order`.
fn detail_rows_of(g: &Vec<CommunityNode>, chats: &[String], order: &Vec<usize>, ann: Option<usize>) -> (rows: Vec<
    ContactRow,
>)
    requires
        forall|x: int| 0 <= x < order.len() ==> (#[trigger] order@[x] as int) < g.len(),
        ann matches Some(a) ==> (a as int) < g.len() && announcement_group(g@[a as int]),
    ensures
        detail_layout(g@, chats@, order@, ann, rows@),
{
    let ghost ann_jid = match ann {
        Some(a) => Some(g@[a as int].jid@),
        None => None,
    };
    let mut rows: Vec<ContactRow> = Vec::new();
    match ann {
        Some(a) => {
            let label = community_group_label(&g[a]);
            rows.push(ContactRow::VirtualAnnouncement(ChatRow { label, members: single(&g[a].jid), target: g[a].jid.clone() }));
        },
        None => {},
    }
    let h = rows.len();
    rows.push(ContactRow::Header(String::from_str("Groups you're in")));
    proof {
        reveal_strlit("Groups you're in");
        assert(order@.take(0) =~= Seq::<usize>::empty());
    }
    let ghost fixed = rows@;
    let mut t: usize = 0;
    while t < order.len()
        invariant
            0 <= t <= order.len(),
            h == (if ann is Some { 1usize } else { 0usize }),
            ann_jid == (match ann {
                Some(a) => Some(g@[a as int].jid@),
                None => None::<Seq<char>>,
            }),
            forall|x: int| 0 <= x < order.len() ==> (#[trigger] order@[x] as int) < g.len(),
            ann matches Some(a) ==> (a as int) < g.len(),
            fixed.len() == h + 1,
            rows@.subrange(0, h + 1) == fixed,
            rows@.len() == h + 1 + joined_positions(g@, order@.take(t as int), chats@, ann_jid).len(),
            forall|i: int|
                0 <= i < joined_positions(g@, order@.take(t as int), chats@, ann_jid).len() ==> chat_row_of(
                    rows@[h + 1 + i],
                    g@[#[trigger] joined_positions(g@, order@.take(t as int), chats@, ann_jid)[i] as int],
                ),
        decreases order.len() - t,
    {
        let x = order[t];
        let ghost jp = joined_positions(g@, order@.take(t as int), chats@, ann_jid);
        proof {
            assert(order@.take(t + 1).drop_last() =~= order@.take(t as int));
            assert(order@.take(t + 1).last() == x);
        }
        let not_ann = match ann {
            Some(a) => compare_text(g[a].jid.as_str(), g[x].jid.as_str()) != Comparison::Equal,
            None => true,
        };
        if g[x].is_joined && in_chat_list(chats, g[x].jid.as_str()) && not_ann {
            let ghost prev = rows@;
            rows.push(ContactRow::Chat(ChatRow { label: g[x].name.clone(), members: single(&g[x].jid), target: g[x].jid.clone() }));
            proof {
                assert(rows@.subrange(0, h + 1) =~= prev.subrange(0, h + 1));
                let jn = joined_positions(g@, order@.take(t + 1), chats@, ann_jid);
                assert(jn == jp.push(x));
                assert forall|i: int| 0 <= i < jn.len() implies chat_row_of(rows@[h + 1 + i], g@[#[trigger] jn[i] as int]) by {
                    if i < jp.len() {
                        assert(jn[i] == jp[i]);
                        assert(rows@[h + 1 + i] == prev[h + 1 + i]);
                    }
                }
            }
        }
        t += 1;
    }
    proof {
        assert(order@.take(order.len() as int) =~= order@);
    }
    let jl = rows.len() - (h + 1);
    let ghost rows1 = rows@;
    rows.push(ContactRow::Action(String::from_str("Add group")));
    rows.push(ContactRow::Header(String::from_str("Groups you can join")));
    proof {
        reveal_strlit("Add group");
        reveal_strlit("Groups you can join");
    }
    let ghost fixed2 = rows@;
    let mut t: usize = 0;
    while t < order.len()
        invariant
            0 <= t <= order.len(),
            h == (if ann is Some { 1usize } else { 0usize }),
            ann_jid == (match ann {
                Some(a) => Some(g@[a as int].jid@),
                None => None::<Seq<char>>,
            }),
            forall|x: int| 0 <= x < order.len() ==> (#[trigger] order@[x] as int) < g.len(),
            ann matches Some(a) ==> (a as int) < g.len(),
            fixed2.len() == h + 3 + jl,
            rows@.subrange(0, h + 3 + jl) == fixed2,
            rows@.len() == h + 3 + jl + joinable_positions(g@, order@.take(t as int), ann_jid).len(),
            forall|i: int|
                0 <= i < joinable_positions(g@, order@.take(t as int), ann_jid).len() ==> available_row_of(
                    rows@[h + 3 + jl + i],
                    g@[#[trigger] joinable_positions(g@, order@.take(t as int), ann_jid)[i] as int],
                ),
        decreases order.len() - t,
    {
        let x = order[t];
        let ghost ap = joinable_positions(g@, order@.take(t as int), ann_jid);
        proof {
            assert(order@.take(t + 1).drop_last() =~= order@.take(t as int));
            assert(order@.take(t + 1).last() == x);
        }
        let not_ann = match ann {
            Some(a) => compare_text(g[a].jid.as_str(), g[x].jid.as_str()) != Comparison::Equal,
            None => true,
        };
        if !g[x].is_joined && not_ann {
            let jid = if g[x].jid.as_str().unicode_len() == 0 {
                None
            } else {
                Some(g[x].jid.clone())
            };
            let ghost prev = rows@;
            rows.push(ContactRow::Available { name: g[x].name.clone(), jid, participant_count: g[x].participant_count });
            proof {
                assert(rows@.subrange(0, h + 3 + jl) =~= prev.subrange(0, h + 3 + jl));
                let an = joinable_positions(g@, order@.take(t + 1), ann_jid);
                assert(an == ap.push(x));
                assert forall|i: int| 0 <= i < an.len() implies available_row_of(rows@[h + 3 + jl + i], g@[#[trigger] an[i] as int]) by {
                    if i < ap.len() {
                        assert(an[i] == ap[i]);
                        assert(rows@[h + 3 + jl + i] == prev[h + 3 + jl + i]);
                    }
                }
            }
        }
        t += 1;
    }
    proof {
        assert(order@.take(order.len() as int) =~= order@);
        let joined = joined_positions(g@, order@, chats@, ann_jid);
        assert(jl == joined.len());
        assert forall|k: int| 0 <= k < h + 3 + jl implies rows@[k] == fixed2[k] by {
            assert(rows@[k] == rows@.subrange(0, h + 3 + jl)[k]);
        }
        assert forall|k: int| 0 <= k < h + 1 + jl implies fixed2[k] == rows1[k] by {
        }
        assert forall|k: int| 0 <= k < h + 1 implies rows1[k] == fixed[k] by {
            assert(rows1[k] == rows1.subrange(0, h + 1)[k]);
        }
        assert(rows@[h as int] == fixed[h as int]);
        assert(rows@[h + 1 + jl] == fixed2[h + 1 + jl]);
        assert(rows@[h + 2 + jl] == fixed2[h + 2 + jl]);
        assert forall|i: int| 0 <= i < joined.len() implies chat_row_of(rows@[h + 1 + i], g@[#[trigger] joined[i] as int]) by {
            assert(rows@[h + 1 + i] == rows1[h + 1 + i]);
        }
        match ann {
            Some(a) => {
                assert(rows@[0] == fixed[0]);
            },
            None => {},
        }
    }
    rows
}

/// The fallback names of a community's links: the name shown for each.
pub open spec fn link_names(contacts: Seq<(String, String)>, links: Seq<Seq<char>>) -> Seq<Seq<char>> {
    links.map_values(|l: Seq<char>| display_name(contacts, l))
}

proof fn lemma_distinct_groups(groups: Seq<CommunityNode>, links: Seq<Seq<char>>)
    requires
        node_jids(groups) == first_occurrences(links),
    ensures
        distinct_node_jids(groups),
{
    crate::community::lemma_first_occurrences_distinct(links);
    assert forall|a: int, b: int| 0 <= a < b < groups.len() implies groups[a].jid@ != groups[b].jid@ by {
        assert(node_jids(groups)[a] == groups[a].jid@);
        assert(node_jids(groups)[b] == groups[b].jid@);
    }
}

/// The rows of a community's detail view: its linked groups (the
/// preferred node of each, by name and JID), led by the announcement row
/// where an announcement group is a known chat, then the joined groups that
/// are known chats, the action to add a group, and the groups one can
/// join. No rows where no node has the community's JID.
pub fn community_detail_rows(
    root_jid: &str,
    nodes: &[CommunityNode],
    chats: &[String],
    contacts: &[(String, String)],
) -> (rows: Vec<ContactRow>)
    ensures
        preferred_node(nodes@, root_jid@, None) <==> rows.len() == 0,
        rows.len() > 0 ==> exists|p: usize, groups: Seq<CommunityNode>, order: Seq<usize>, ann: Option<usize>|
            {
                &&& preferred_node(nodes@, root_jid@, Some(p))
                &&& linked_group_spec(
                    nodes@,
                    string_views(nodes@[p as int].linked_groups@),
                    link_names(contacts@, string_views(nodes@[p as int].linked_groups@)),
                    groups,
                )
                &&& is_name_order(groups, order)
                &&& is_announcement_choice(groups, chats@, ann)
                &&& detail_layout(groups, chats@, order, ann, rows@)
            },
{
    let p = match preferred_node_with_jid(nodes, root_jid) {
        Some(p) => p,
        None => return Vec::new(),
    };
    proof {
        let cand = jid_positions(nodes@, root_jid@, nodes@.len() as int);
        assert(kept_candidate(nodes@, cand, p));
        assert(cand.len() > 0);
    }
    let links = &nodes[p].linked_groups;
    let ghost lv = string_views(links@);
    let mut fallback: Vec<String> = Vec::new();
    let mut i: usize = 0;
    while i < links.len()
        invariant
            0 <= i <= links.len(),
            fallback.len() == i,
            lv == string_views(links@),
            forall|j: int| 0 <= j < i ==> (#[trigger] fallback@[j])@ == display_name(contacts@, lv[j]),
        decreases links.len() - i,
    {
        fallback.push(display_name_of(contacts, links[i].as_str()));
        i += 1;
    }
    proof {
        assert(string_views(fallback@) =~= link_names(contacts@, lv));
    }
    let groups = linked_group_nodes(links, nodes, fallback.as_slice());
    proof {
        lemma_distinct_groups(groups@, lv);
    }
    let order = name_order(&groups);
    let ann = choose_announcement(&groups, chats);
    proof {
        assert forall|x: int| 0 <= x < order.len() implies (#[trigger] order@[x] as int) < groups.len() by {
            assert(order@.contains(order@[x]));
        }
    }
    let rows = detail_rows_of(&groups, chats, &order, ann);
    proof {
        assert(rows@.len() > 0);
        assert(preferred_node(nodes@, root_jid@, Some(p)) && linked_group_spec(
            nodes@,
            string_views(nodes@[p as int].linked_groups@),
            link_names(contacts@, string_views(nodes@[p as int].linked_groups@)),
            groups@,
        ) && is_name_order(groups@, order@) && is_announcement_choice(groups@, chats@, ann) && detail_layout(
            groups@,
            chats@,
            order@,
            ann,
            rows@,
        ));
    }
    rows
}

/// A chat list row as plain values: label, members and target.
pub open spec fn row_view(r: ChatRow) -> (Seq<char>, Seq<Seq<char>>, Seq<char>) {
    (r.label@, string_views(r.members@), r.target@)
}

/// The recency of a chat: the first entry for it in `recency`, or 0.
pub open spec fn recency_of(recency: Seq<(String, i64)>, jid: Seq<char>) -> i64
    decreases recency.len(),
{
    if recency.len() == 0 {
        0
    } else if recency[0].0@ == jid {
        recency[0].1
    } else {
        recency_of(recency.drop_first(), jid)
    }
}

/// Looks up the recency of a chat.
pub fn recency_lookup(recency: &[(String, i64)], jid: &str) -> (t: i64)
    ensures
        t == recency_of(recency@, jid@),
{
    let mut i: usize = 0;
    assert(recency@.skip(0) =~= recency@);
    while i < recency.len()
        invariant
            0 <= i <= recency.len(),
            recency_of(recency@.skip(i as int), jid@) == recency_of(recency@, jid@),
        decreases recency.len() - i,
    {
        proof {
            assert(recency@.skip(i as int)[0] == recency@[i as int]);
            assert(recency@.skip(i as int).drop_first() =~= recency@.skip(i + 1));
        }
        if compare_text(recency[i].0.as_str(), jid) == Comparison::Equal {
            return recency[i].1;
        }
        i += 1;
    }
    proof {
        assert(recency@.skip(i as int) =~= Seq::<(String, i64)>::empty());
    }
    0
}

/// The positions of the communities among the nodes.
pub open spec fn root_positions(nodes: Seq<CommunityNode>, n: int) -> Seq<usize>
    decreases n,
{
    if n <= 0 {
        Seq::empty()
    } else {
        let rest = root_positions(nodes, n - 1);
        if nodes[n - 1].is_root {
            rest.push((n - 1) as usize)
        } else {
            rest
        }
    }
}

/// The JIDs of the groups that a community row stands for: its joined
/// linked groups that are known chats, in order.
pub open spec fn member_jids(groups: Seq<CommunityNode>, chats: Seq<String>) -> Seq<Seq<char>>
    decreases groups.len(),
{
    if groups.len() == 0 {
        Seq::empty()
    } else {
        let rest = member_jids(groups.drop_last(), chats);
        let g = groups.last();
        if in_chats(chats, g.jid@) && g.is_joined {
            rest.push(g.jid@)
        } else {
            rest
        }
    }
}

/// The member the row opens: the most recent, the last of equally recent
/// ones.
pub open spec fn latest_member(members: Seq<Seq<char>>, recency: Seq<(String, i64)>) -> Seq<char>
    decreases members.len(),
{
    if members.len() <= 1 {
        members[0]
    } else {
        let t = latest_member(members.drop_last(), recency);
        if recency_of(recency, members.last()) >= recency_of(recency, t) {
            members.last()
        } else {
            t
        }
    }
}

/// The community rows for the first `k` communities: one per community
/// with members, labelled with its name and opening its latest member.
pub open spec fn community_rows(
    nodes: Seq<CommunityNode>,
    roots: Seq<usize>,
    groups: Seq<Seq<CommunityNode>>,
    chats: Seq<String>,
    recency: Seq<(String, i64)>,
    k: int,
) -> Seq<(Seq<char>, Seq<Seq<char>>, Seq<char>)>
    decreases k,
{
    if k <= 0 {
        Seq::empty()
    } else {
        let rest = community_rows(nodes, roots, groups, chats, recency, k - 1);
        let members = member_jids(groups[k - 1], chats);
        if members.len() > 0 {
            rest.push((nodes[roots[k - 1] as int].name@, members, latest_member(members, recency)))
        } else {
            rest
        }
    }
}

/// The members of the first `k` community rows.
pub open spec fn grouped_jids(groups: Seq<Seq<CommunityNode>>, chats: Seq<String>, k: int) -> Seq<Seq<char>>
    decreases k,
{
    if k <= 0 {
        Seq::empty()
    } else {
        grouped_jids(groups, chats, k - 1) + member_jids(groups[k - 1], chats)
    }
}

/// The rows of the chats that no community row stands for and that are
/// not themselves communities or groups of one, in the order given.
pub open spec fn plain_chat_rows(
    sorted: Seq<Seq<char>>,
    grouped: Seq<Seq<char>>,
    nodes: Seq<CommunityNode>,
    contacts: Seq<(String, String)>,
) -> Seq<(Seq<char>, Seq<Seq<char>>, Seq<char>)>
    decreases sorted.len(),
{
    if sorted.len() == 0 {
        Seq::empty()
    } else {
        let rest = plain_chat_rows(sorted.drop_last(), grouped, nodes, contacts);
        let j = sorted.last();
        if !grouped.contains(j) && !node_jids(nodes).contains(j) {
            rest.push((display_name(contacts, j), seq![j], j))
        } else {
            rest
        }
    }
}

/// Row `a` is listed before row `b`: more recent target, then by label,
/// then by target.
pub open spec fn row_less(
    recency: Seq<(String, i64)>,
    a: (Seq<char>, Seq<Seq<char>>, Seq<char>),
    b: (Seq<char>, Seq<Seq<char>>, Seq<char>),
) -> bool {
    let ra = recency_of(recency, a.2);
    let rb = recency_of(recency, b.2);
    ra > rb || (ra == rb && (text_less(a.0, b.0) || (a.0 == b.0 && text_less(a.2, b.2))))
}

/// `x` placed after every row of `s` it does not precede.
pub open spec fn insert_row(
    recency: Seq<(String, i64)>,
    s: Seq<(Seq<char>, Seq<Seq<char>>, Seq<char>)>,
    x: (Seq<char>, Seq<Seq<char>>, Seq<char>),
) -> Seq<(Seq<char>, Seq<Seq<char>>, Seq<char>)>
    decreases s.len(),
{
    if s.len() == 0 {
        seq![x]
    } else if row_less(recency, x, s[0]) {
        seq![x] + s
    } else {
        seq![s[0]] + insert_row(recency, s.drop_first(), x)
    }
}

/// The rows sorted by `row_less`; rows that tie keep their order.
pub open spec fn sort_rows(
    recency: Seq<(String, i64)>,
    rows: Seq<(Seq<char>, Seq<Seq<char>>, Seq<char>)>,
) -> Seq<(Seq<char>, Seq<Seq<char>>, Seq<char>)>
    decreases rows.len(),
{
    if rows.len() == 0 {
        Seq::empty()
    } else {
        insert_row(recency, sort_rows(recency, rows.drop_last()), rows.last())
    }
}

proof fn lemma_insert_row(
    recency: Seq<(String, i64)>,
    s: Seq<(Seq<char>, Seq<Seq<char>>, Seq<char>)>,
    x: (Seq<char>, Seq<Seq<char>>, Seq<char>),
    p: int,
)
    requires
        0 <= p <= s.len(),
        forall|a: int| 0 <= a < p ==> !row_less(recency, x, s[a]),
        p == s.len() || row_less(recency, x, s[p]),
    ensures
        insert_row(recency, s, x) == s.insert(p, x),
    decreases p,
{
    if p == 0 {
        if s.len() == 0 {
            assert(s.insert(0, x) =~= seq![x]);
        } else {
            assert(s.insert(0, x) =~= seq![x] + s);
        }
    } else {
        lemma_insert_row(recency, s.drop_first(), x, p - 1);
        assert(s.insert(p, x) =~= seq![s[0]] + s.drop_first().insert(p - 1, x));
    }
}

fn member_list(groups: &Vec<CommunityNode>, chats: &[String]) -> (m: Vec<String>)
    ensures
        string_views(m@) == member_jids(groups@, chats@),
{
    let mut m: Vec<String> = Vec::new();
    let mut i: usize = 0;
    while i < groups.len()
        invariant
            0 <= i <= groups.len(),
            string_views(m@) == member_jids(groups@.take(i as int), chats@),
        decreases groups.len() - i,
    {
        proof {
            assert(groups@.take(i + 1).drop_last() =~= groups@.take(i as int));
            assert(groups@.take(i + 1).last() == groups@[i as int]);
        }
        if in_chat_list(chats, groups[i].jid.as_str()) && groups[i].is_joined {
            m.push(groups[i].jid.clone());
            proof {
                assert(string_views(m@) =~= member_jids(groups@.take(i as int), chats@).push(groups@[i as int].jid@));
            }
        }
        i += 1;
    }
    proof {
        assert(groups@.take(groups.len() as int) =~= groups@);
    }
    m
}

fn latest_member_of(members: &Vec<String>, recency: &[(String, i64)]) -> (t: String)
    requires
        members.len() > 0,
    ensures
        t@ == latest_member(string_views(members@), recency@),
{
    let ghost v = string_views(members@);
    let mut best = members[0].clone();
    let mut best_time = recency_lookup(recency, members[0].as_str());
    proof {
        assert(v.take(1).len() == 1);
        assert(v.take(1)[0] == v[0]);
    }
    let mut i: usize = 1;
    while i < members.len()
        invariant
            1 <= i <= members.len(),
            v == string_views(members@),
            best@ == latest_member(v.take(i as int), recency@),
            best_time == recency_of(recency@, best@),
        decreases members.len() - i,
    {
        proof {
            assert(v.take(i + 1).drop_last() =~= v.take(i as int));
            assert(v.take(i + 1).last() == members@[i as int]@);
        }
        let t = recency_lookup(recency, members[i].as_str());
        if t >= best_time {
            best = members[i].clone();
            best_time = t;
        }
        i += 1;
    }
    proof {
        assert(v.take(members.len() as int) =~= v);
    }
    best
}

fn row_sorts_before(recency: &[(String, i64)], a: &ChatRow, b: &ChatRow) -> (r: bool)
    ensures
        r == row_less(recency@, row_view(*a), row_view(*b)),
{
    let ra = recency_lookup(recency, a.target.as_str());
    let rb = recency_lookup(recency, b.target.as_str());
    if ra != rb {
        return ra > rb;
    }
    proof {
        lemma_text_less_total(a.label@, b.label@);
        lemma_text_less_total(a.target@, b.target@);
    }
    match compare_text(a.label.as_str(), b.label.as_str()) {
        Comparison::Less => true,
        Comparison::Greater => false,
        Comparison::Equal => compare_text(a.target.as_str(), b.target.as_str()) == Comparison::Less,
    }
}

fn copy_row(r: &ChatRow) -> (c: ChatRow)
    ensures
        row_view(c) == row_view(*r),
{
    ChatRow { label: r.label.clone(), members: copy_strings(&r.members), target: r.target.clone() }
}

/// The rows sorted: most recent target first, then by label and target;
/// rows that tie keep their order.
pub fn sorted_rows(recency: &[(String, i64)], rows: &Vec<ChatRow>) -> (out: Vec<ChatRow>)
    ensures
        out@.map_values(|r: ChatRow| row_view(r)) == sort_rows(recency@, rows@.map_values(|r: ChatRow| row_view(r))),
{
    let ghost all = rows@.map_values(|r: ChatRow| row_view(r));
    let mut out: Vec<ChatRow> = Vec::new();
    let mut k: usize = 0;
    while k < rows.len()
        invariant
            0 <= k <= rows.len(),
            all == rows@.map_values(|r: ChatRow| row_view(r)),
            out@.map_values(|r: ChatRow| row_view(r)) == sort_rows(recency@, all.take(k as int)),
        decreases rows.len() - k,
    {
        let ghost sorted = out@.map_values(|r: ChatRow| row_view(r));
        let mut p: usize = 0;
        while p < out.len()
            invariant
                0 <= p <= out.len(),
                k < rows.len(),
                sorted == out@.map_values(|r: ChatRow| row_view(r)),
                forall|a: int| 0 <= a < p ==> !row_less(recency@, row_view(rows@[k as int]), sorted[a]),
            ensures
                p < out.len() ==> row_less(recency@, row_view(rows@[k as int]), sorted[p as int]),
            decreases out.len() - p,
        {
            if row_sorts_before(recency, &rows[k], &out[p]) {
                break;
            }
            p += 1;
        }
        proof {
            lemma_insert_row(recency@, sorted, row_view(rows@[k as int]), p as int);
            assert(all.take(k + 1).drop_last() =~= all.take(k as int));
            assert(all.take(k + 1).last() == row_view(rows@[k as int]));
        }
        out.insert(p, copy_row(&rows[k]));
        proof {
            assert(out@.map_values(|r: ChatRow| row_view(r)) =~= sorted.insert(p as int, row_view(rows@[k as int])));
        }
        k += 1;
    }
    proof {
        assert(all.take(rows.len() as int) =~= all);
    }
    out
}

/// The linked groups of the community at position `r`, as the community
/// list shows them.
fn linked_groups_of(nodes: &[CommunityNode], r: usize, contacts: &[(String, String)]) -> (groups: Vec<CommunityNode>)
    requires
        (r as int) < nodes.len(),
    ensures
        linked_group_spec(
            nodes@,
            string_views(nodes@[r as int].linked_groups@),
            link_names(contacts@, string_views(nodes@[r as int].linked_groups@)),
            groups@,
        ),
{
    let links = &nodes[r].linked_groups;
    let ghost lv = string_views(links@);
    let mut fallback: Vec<String> = Vec::new();
    let mut i: usize = 0;
    while i < links.len()
        invariant
            0 <= i <= links.len(),
            fallback.len() == i,
            lv == string_views(links@),
            forall|j: int| 0 <= j < i ==> (#[trigger] fallback@[j])@ == display_name(contacts@, lv[j]),
        decreases links.len() - i,
    {
        fallback.push(display_name_of(contacts, links[i].as_str()));
        i += 1;
    }
    proof {
        assert(string_views(fallback@) =~= link_names(contacts@, lv));
    }
    linked_group_nodes(links, nodes, fallback.as_slice())
}

fn node_has_jid(nodes: &[CommunityNode], jid: &str) -> (b: bool)
    ensures
        b == node_jids(nodes@).contains(jid@),
{
    let mut i: usize = 0;
    while i < nodes.len()
        invariant
            0 <= i <= nodes.len(),
            forall|j: int| 0 <= j < i ==> nodes@[j].jid@ != jid@,
        decreases nodes.len() - i,
    {
        if compare_text(nodes[i].jid.as_str(), jid) == Comparison::Equal {
            assert(node_jids(nodes@)[i as int] == jid@);
            return true;
        }
        i += 1;
    }
    proof {
        if node_jids(nodes@).contains(jid@) {
            let k = choose|k: int| 0 <= k < nodes@.len() && node_jids(nodes@)[k] == jid@;
            assert(nodes@[k].jid@ == jid@);
        }
    }
    false
}

/// The chat list rows over the community list: the communities whose
/// joined linked groups include known chats are one row each, the other
/// chats (in their listing order) one row each, but for those that a
/// community row stands for and for communities and groups themselves;
/// all sorted most recent first, then by label and target.
pub open spec fn chat_rows_spec(
    nodes: Seq<CommunityNode>,
    chats: Seq<String>,
    sorted: Seq<String>,
    recency: Seq<(String, i64)>,
    contacts: Seq<(String, String)>,
    rows: Seq<(Seq<char>, Seq<Seq<char>>, Seq<char>)>,
) -> bool {
    exists|roots: Seq<usize>, groups: Seq<Seq<CommunityNode>>|
        {
            &&& is_dedupe(nodes, root_positions(nodes, nodes.len() as int), roots)
            &&& groups.len() == roots.len()
            &&& forall|k: int|
                0 <= k < roots.len() ==> linked_group_spec(
                    nodes,
                    string_views(nodes[roots[k] as int].linked_groups@),
                    link_names(contacts, string_views(nodes[roots[k] as int].linked_groups@)),
                    #[trigger] groups[k],
                )
            &&& rows == sort_rows(
                recency,
                community_rows(nodes, roots, groups, chats, recency, roots.len() as int) + plain_chat_rows(
                    string_views(sorted),
                    grouped_jids(groups, chats, roots.len() as int),
                    nodes,
                    contacts,
                ),
            )
        }
}

/// Builds the rows of the chat list.
pub fn build_chat_rows(
    nodes: &[CommunityNode],
    chats: &[String],
    sorted_chats: &[String],
    recency: &[(String, i64)],
    contacts: &[(String, String)],
) -> (rows: Vec<ChatRow>)
    ensures
        chat_rows_spec(nodes@, chats@, sorted_chats@, recency@, contacts@, rows@.map_values(|r: ChatRow| row_view(r))),
{
    let mut root_cand: Vec<usize> = Vec::new();
    let mut k: usize = 0;
    while k < nodes.len()
        invariant
            0 <= k <= nodes.len(),
            root_cand@ == root_positions(nodes@, k as int),
            forall|j: int| 0 <= j < root_cand.len() ==> (#[trigger] root_cand@[j] as int) < k,
        decreases nodes.len() - k,
    {
        if nodes[k].is_root {
            root_cand.push(k);
        }
        k += 1;
    }
    let roots = dedupe_nodes(nodes, root_cand.as_slice());
    proof {
        assert forall|a: int| 0 <= a < roots.len() implies (#[trigger] roots@[a] as int) < nodes.len() by {
            assert(kept_candidate(nodes@, root_cand@, roots@[a]));
        }
    }
    let mut rows: Vec<ChatRow> = Vec::new();
    let mut grouped: Vec<String> = Vec::new();
    let ghost mut groups: Seq<Seq<CommunityNode>> = Seq::empty();
    let mut r: usize = 0;
    while r < roots.len()
        invariant
            0 <= r <= roots.len(),
            forall|a: int| 0 <= a < roots.len() ==> (#[trigger] roots@[a] as int) < nodes.len(),
            groups.len() == r,
            forall|q: int|
                0 <= q < r ==> linked_group_spec(
                    nodes@,
                    string_views(nodes@[roots@[q] as int].linked_groups@),
                    link_names(contacts@, string_views(nodes@[roots@[q] as int].linked_groups@)),
                    #[trigger] groups[q],
                ),
            rows@.map_values(|x: ChatRow| row_view(x)) == community_rows(nodes@, roots@, groups, chats@, recency@, r as int),
            string_views(grouped@) == grouped_jids(groups, chats@, r as int),
        decreases roots.len() - r,
    {
        let root = roots[r];
        let linked = linked_groups_of(nodes, root, contacts);
        let members = member_list(&linked, chats);
        let ghost old_groups = groups;
        let ghost old_rows = rows@.map_values(|x: ChatRow| row_view(x));
        let ghost old_grouped = string_views(grouped@);
        proof {
            groups = groups.push(linked@);
            assert(groups.drop_last() =~= old_groups);
            assert forall|q: int| 0 <= q < r implies community_rows(nodes@, roots@, groups, chats@, recency@, q)
                == community_rows(nodes@, roots@, old_groups, chats@, recency@, q) by {
                lemma_community_rows_prefix(nodes@, roots@, old_groups, linked@, chats@, recency@, q);
            }
            lemma_community_rows_prefix(nodes@, roots@, old_groups, linked@, chats@, recency@, r as int);
            lemma_grouped_prefix(old_groups, linked@, chats@, r as int);
        }
        if members.len() > 0 {
            let target = latest_member_of(&members, recency);
            let mut i: usize = 0;
            while i < members.len()
                invariant
                    0 <= i <= members.len(),
                    string_views(grouped@) == old_grouped + string_views(members@).take(i as int),
                decreases members.len() - i,
            {
                let ghost gv = string_views(grouped@);
                grouped.push(members[i].clone());
                proof {
                    assert(string_views(grouped@) =~= gv.push(members@[i as int]@));
                    assert(string_views(members@).take(i + 1) =~= string_views(members@).take(i as int).push(
                        members@[i as int]@,
                    ));
                    assert(string_views(grouped@) =~= old_grouped + string_views(members@).take(i + 1));
                }
                i += 1;
            }
            proof {
                assert(string_views(members@).take(members.len() as int) =~= string_views(members@));
            }
            rows.push(ChatRow { label: nodes[root].name.clone(), members, target });
            proof {
                assert(rows@.map_values(|x: ChatRow| row_view(x)) =~= old_rows.push(row_view(rows@.last())));
            }
        } else {
            proof {
                assert(string_views(members@) =~= Seq::<Seq<char>>::empty());
                assert(old_grouped + member_jids(linked@, chats@) =~= old_grouped);
            }
        }
        r += 1;
    }
    let ghost community = rows@.map_values(|x: ChatRow| row_view(x));
    let ghost sorted_views = string_views(sorted_chats@);
    let mut i: usize = 0;
    proof {
        assert(sorted_views.take(0) =~= Seq::<Seq<char>>::empty());
        assert(community + Seq::<(Seq<char>, Seq<Seq<char>>, Seq<char>)>::empty() =~= community);
    }
    while i < sorted_chats.len()
        invariant
            0 <= i <= sorted_chats.len(),
            sorted_views == string_views(sorted_chats@),
            rows@.map_values(|x: ChatRow| row_view(x)) == community + plain_chat_rows(
                sorted_views.take(i as int),
                string_views(grouped@),
                nodes@,
                contacts@,
            ),
        decreases sorted_chats.len() - i,
    {
        let ghost before = rows@.map_values(|x: ChatRow| row_view(x));
        proof {
            assert(sorted_views.take(i + 1).drop_last() =~= sorted_views.take(i as int));
            assert(sorted_views.take(i + 1).last() == sorted_chats@[i as int]@);
        }
        let jid = sorted_chats[i].as_str();
        if !in_chat_list(grouped.as_slice(), jid) && !node_has_jid(nodes, jid) {
            let label = display_name_of(contacts, jid);
            let members = single(&sorted_chats[i]);
            rows.push(ChatRow { label, members, target: sorted_chats[i].clone() });
            proof {
                assert(rows@.map_values(|x: ChatRow| row_view(x)) =~= before.push(row_view(rows@.last())));
            }
        }
        i += 1;
    }
    proof {
        assert(sorted_views.take(sorted_chats.len() as int) =~= sorted_views);
    }
    let out = sorted_rows(recency, &rows);
    proof {
        assert(is_dedupe(nodes@, root_positions(nodes@, nodes@.len() as int), roots@));
    }
    out
}

proof fn lemma_community_rows_prefix(
    nodes: Seq<CommunityNode>,
    roots: Seq<usize>,
    groups: Seq<Seq<CommunityNode>>,
    extra: Seq<CommunityNode>,
    chats: Seq<String>,
    recency: Seq<(String, i64)>,
    q: int,
)
    requires
        0 <= q <= groups.len(),
    ensures
        community_rows(nodes, roots, groups.push(extra), chats, recency, q) == community_rows(
            nodes,
            roots,
            groups,
            chats,
            recency,
            q,
        ),
    decreases q,
{
    if q > 0 {
        lemma_community_rows_prefix(nodes, roots, groups, extra, chats, recency, q - 1);
        assert(groups.push(extra)[q - 1] == groups[q - 1]);
    }
}

proof fn lemma_grouped_prefix(groups: Seq<Seq<CommunityNode>>, extra: Seq<CommunityNode>, chats: Seq<String>, q: int)
    requires
        0 <= q <= groups.len(),
    ensures
        grouped_jids(groups.push(extra), chats, q) == grouped_jids(groups, chats, q),
    decreases q,
{
    if q > 0 {
        lemma_grouped_prefix(groups, extra, chats, q - 1);
        assert(groups.push(extra)[q - 1] == groups[q - 1]);
    }
}

/// The row matches the search query (already in lower case): an empty
/// query matches every row; otherwise the row's label or the name of one
/// of its members contains it, in lower case.
pub open spec fn row_matches_query(r: ChatRow, query: Seq<char>, contacts: Seq<(String, String)>) -> bool {
    query.len() == 0 || contains_text(lowercased(r.label@), query) || exists|m: int|
        0 <= m < r.members@.len() && contains_text(
            lowercased(display_name(contacts, #[trigger] r.members@[m]@)),
            query,
        )
}

/// The positions among the first `n` rows that match the query.
pub open spec fn matching_positions(
    rows: Seq<ChatRow>,
    query: Seq<char>,
    contacts: Seq<(String, String)>,
    n: int,
) -> Seq<usize>
    decreases n,
{
    if n <= 0 {
        Seq::empty()
    } else {
        let rest = matching_positions(rows, query, contacts, n - 1);
        if row_matches_query(rows[n - 1], query, contacts) {
            rest.push((n - 1) as usize)
        } else {
            rest
        }
    }
}

fn row_matches(r: &ChatRow, query: &str, contacts: &[(String, String)]) -> (b: bool)
    ensures
        b == row_matches_query(*r, query@, contacts@),
{
    if query.unicode_len() == 0 {
        return true;
    }
    let label = to_lower(r.label.as_str());
    if text_contains(label.as_str(), query) {
        return true;
    }
    let mut m: usize = 0;
    while m < r.members.len()
        invariant
            0 <= m <= r.members.len(),
            query@.len() > 0,
            !contains_text(lowercased(r.label@), query@),
            forall|j: int|
                0 <= j < m ==> !contains_text(lowercased(display_name(contacts@, #[trigger] r.members@[j]@)), query@),
        decreases r.members.len() - m,
    {
        let name = display_name_of(contacts, r.members[m].as_str());
        let lower = to_lower(name.as_str());
        if text_contains(lower.as_str(), query) {
            return true;
        }
        m += 1;
    }
    false
}

/// The positions of the rows that the chat search shows.
pub fn visible_chat_indices(rows: &[ChatRow], query: &str, contacts: &[(String, String)]) -> (r: Vec<usize>)
    ensures
        r@ == matching_positions(rows@, query@, contacts@, rows@.len() as int),
{
    let mut r: Vec<usize> = Vec::new();
    let mut i: usize = 0;
    while i < rows.len()
        invariant
            0 <= i <= rows.len(),
            r@ == matching_positions(rows@, query@, contacts@, i as int),
        decreases rows.len() - i,
    {
        if row_matches(&rows[i], query, contacts) {
            r.push(i);
        }
        i += 1;
    }
    r
}

/// The row opens one of the chats it stands for, and each of them is a
/// known chat or a chat of the listing.
pub open spec fn row_addresses_chats(
    row: (Seq<char>, Seq<Seq<char>>, Seq<char>),
    chats: Seq<String>,
    sorted: Seq<String>,
) -> bool {
    &&& row.1.contains(row.2)
    &&& forall|m: int| 0 <= m < row.1.len() ==> in_chats(chats, #[trigger] row.1[m]) || string_views(sorted).contains(row.1[m])
}

proof fn lemma_insert_row_subset(
    recency: Seq<(String, i64)>,
    s: Seq<(Seq<char>, Seq<Seq<char>>, Seq<char>)>,
    x: (Seq<char>, Seq<Seq<char>>, Seq<char>),
    y: (Seq<char>, Seq<Seq<char>>, Seq<char>),
)
    requires
        insert_row(recency, s, x).contains(y),
    ensures
        y == x || s.contains(y),
    decreases s.len(),
{
    let r = insert_row(recency, s, x);
    let k = choose|k: int| 0 <= k < r.len() && r[k] == y;
    if s.len() == 0 {
    } else if row_less(recency, x, s[0]) {
        if k > 0 {
            assert(r[k] == s[k - 1]);
        }
    } else {
        if k == 0 {
            assert(r[0] == s[0]);
        } else {
            let t = insert_row(recency, s.drop_first(), x);
            assert(r[k] == t[k - 1]);
            assert(t.contains(y));
            lemma_insert_row_subset(recency, s.drop_first(), x, y);
            if s.drop_first().contains(y) {
                let j = choose|j: int| 0 <= j < s.drop_first().len() && s.drop_first()[j] == y;
                assert(s[j + 1] == y);
            }
        }
    }
}

proof fn lemma_sort_rows_subset(
    recency: Seq<(String, i64)>,
    rows: Seq<(Seq<char>, Seq<Seq<char>>, Seq<char>)>,
    y: (Seq<char>, Seq<Seq<char>>, Seq<char>),
)
    requires
        sort_rows(recency, rows).contains(y),
    ensures
        rows.contains(y),
    decreases rows.len(),
{
    if rows.len() > 0 {
        lemma_insert_row_subset(recency, sort_rows(recency, rows.drop_last()), rows.last(), y);
        if y != rows.last() {
            lemma_sort_rows_subset(recency, rows.drop_last(), y);
            let j = choose|j: int| 0 <= j < rows.drop_last().len() && rows.drop_last()[j] == y;
            assert(rows[j] == y);
        } else {
            assert(rows[rows.len() - 1] == y);
        }
    }
}

proof fn lemma_member_jids_known(groups: Seq<CommunityNode>, chats: Seq<String>)
    ensures
        forall|m: int| 0 <= m < member_jids(groups, chats).len() ==> in_chats(chats, #[trigger] member_jids(groups, chats)[m]),
    decreases groups.len(),
{
    if groups.len() > 0 {
        lemma_member_jids_known(groups.drop_last(), chats);
        let rest = member_jids(groups.drop_last(), chats);
        let all = member_jids(groups, chats);
        assert forall|m: int| 0 <= m < all.len() implies in_chats(chats, #[trigger] all[m]) by {
            if m < rest.len() {
                assert(all[m] == rest[m]);
            }
        }
    }
}

proof fn lemma_latest_member_in(members: Seq<Seq<char>>, recency: Seq<(String, i64)>)
    requires
        members.len() > 0,
    ensures
        members.contains(latest_member(members, recency)),
    decreases members.len(),
{
    if members.len() == 1 {
        assert(members[0] == latest_member(members, recency));
    } else {
        lemma_latest_member_in(members.drop_last(), recency);
        let t = latest_member(members.drop_last(), recency);
        if latest_member(members, recency) == t {
            let j = choose|j: int| 0 <= j < members.drop_last().len() && members.drop_last()[j] == t;
            assert(members[j] == t);
        } else {
            assert(members[members.len() - 1] == latest_member(members, recency));
        }
    }
}

proof fn lemma_community_rows_address(
    nodes: Seq<CommunityNode>,
    roots: Seq<usize>,
    groups: Seq<Seq<CommunityNode>>,
    chats: Seq<String>,
    sorted: Seq<String>,
    recency: Seq<(String, i64)>,
    k: int,
)
    requires
        0 <= k <= groups.len(),
    ensures
        forall|i: int|
            0 <= i < community_rows(nodes, roots, groups, chats, recency, k).len() ==> row_addresses_chats(
                #[trigger] community_rows(nodes, roots, groups, chats, recency, k)[i],
                chats,
                sorted,
            ),
    decreases k,
{
    if k > 0 {
        lemma_community_rows_address(nodes, roots, groups, chats, sorted, recency, k - 1);
        let rest = community_rows(nodes, roots, groups, chats, recency, k - 1);
        let all = community_rows(nodes, roots, groups, chats, recency, k);
        let members = member_jids(groups[k - 1], chats);
        lemma_member_jids_known(groups[k - 1], chats);
        if members.len() > 0 {
            lemma_latest_member_in(members, recency);
        }
        assert forall|i: int| 0 <= i < all.len() implies row_addresses_chats(#[trigger] all[i], chats, sorted) by {
            if i < rest.len() {
                assert(all[i] == rest[i]);
            }
        }
    }
}

proof fn lemma_plain_rows_address(
    sorted_views: Seq<Seq<char>>,
    grouped: Seq<Seq<char>>,
    nodes: Seq<CommunityNode>,
    contacts: Seq<(String, String)>,
    chats: Seq<String>,
    sorted: Seq<String>,
)
    requires
        forall|j: int| 0 <= j < sorted_views.len() ==> string_views(sorted).contains(#[trigger] sorted_views[j]),
    ensures
        forall|i: int|
            0 <= i < plain_chat_rows(sorted_views, grouped, nodes, contacts).len() ==> row_addresses_chats(
                #[trigger] plain_chat_rows(sorted_views, grouped, nodes, contacts)[i],
                chats,
                sorted,
            ),
    decreases sorted_views.len(),
{
    if sorted_views.len() > 0 {
        let d = sorted_views.drop_last();
        assert forall|j: int| 0 <= j < d.len() implies string_views(sorted).contains(#[trigger] d[j]) by {
            assert(d[j] == sorted_views[j]);
        }
        lemma_plain_rows_address(d, grouped, nodes, contacts, chats, sorted);
        let rest = plain_chat_rows(d, grouped, nodes, contacts);
        let all = plain_chat_rows(sorted_views, grouped, nodes, contacts);
        let j = sorted_views.last();
        assert(string_views(sorted).contains(sorted_views[sorted_views.len() - 1]));
        assert forall|i: int| 0 <= i < all.len() implies row_addresses_chats(#[trigger] all[i], chats, sorted) by {
            if i < rest.len() {
                assert(all[i] == rest[i]);
            } else {
                assert(all[i] == (display_name(contacts, j), seq![j], j));
                assert(seq![j][0] == j);
            }
        }
    }
}

/// Every row of the chat list opens a chat it stands for, and stands
/// only for real chats: a community row for its joined linked groups that
/// are known chats, any other row for a chat of the listing. A community
/// itself never becomes a row's target.
pub proof fn lemma_rows_address_real_chats(
    nodes: Seq<CommunityNode>,
    chats: Seq<String>,
    sorted: Seq<String>,
    recency: Seq<(String, i64)>,
    contacts: Seq<(String, String)>,
    rows: Seq<(Seq<char>, Seq<Seq<char>>, Seq<char>)>,
)
    requires
        chat_rows_spec(nodes, chats, sorted, recency, contacts, rows),
    ensures
        forall|i: int| 0 <= i < rows.len() ==> row_addresses_chats(#[trigger] rows[i], chats, sorted),
{
    let (roots, groups) = choose|roots: Seq<usize>, groups: Seq<Seq<CommunityNode>>|
        {
            &&& is_dedupe(nodes, root_positions(nodes, nodes.len() as int), roots)
            &&& groups.len() == roots.len()
            &&& forall|k: int|
                0 <= k < roots.len() ==> linked_group_spec(
                    nodes,
                    string_views(nodes[roots[k] as int].linked_groups@),
                    link_names(contacts, string_views(nodes[roots[k] as int].linked_groups@)),
                    #[trigger] groups[k],
                )
            &&& rows == sort_rows(
                recency,
                community_rows(nodes, roots, groups, chats, recency, roots.len() as int) + plain_chat_rows(
                    string_views(sorted),
                    grouped_jids(groups, chats, roots.len() as int),
                    nodes,
                    contacts,
                ),
            )
        };
    let c = community_rows(nodes, roots, groups, chats, recency, roots.len() as int);
    let p = plain_chat_rows(string_views(sorted), grouped_jids(groups, chats, roots.len() as int), nodes, contacts);
    lemma_community_rows_address(nodes, roots, groups, chats, sorted, recency, roots.len() as int);
    assert forall|j: int| 0 <= j < string_views(sorted).len() implies string_views(sorted).contains(
        #[trigger] string_views(sorted)[j],
    ) by {
    }
    lemma_plain_rows_address(
        string_views(sorted),
        grouped_jids(groups, chats, roots.len() as int),
        nodes,
        contacts,
        chats,
        sorted,
    );
    assert forall|i: int| 0 <= i < rows.len() implies row_addresses_chats(#[trigger] rows[i], chats, sorted) by {
        assert(rows.contains(rows[i]));
        lemma_sort_rows_subset(recency, c + p, rows[i]);
        let k = choose|k: int| 0 <= k < (c + p).len() && (c + p)[k] == rows[i];
        if k < c.len() {
            assert((c + p)[k] == c[k]);
        } else {
            assert((c + p)[k] == p[k - c.len()]);
        }
    }
}

/// The community `root`, with linked groups `groups`, is what the row
/// shows: the row has its name and stands for exactly its joined linked
/// groups that are known chats.
pub open spec fn row_shows_community(
    root: CommunityNode,
    groups: Seq<CommunityNode>,
    chats: Seq<String>,
    row: ChatRow,
) -> bool {
    let members = member_jids(groups, chats);
    &&& row.label@ == root.name@
    &&& members.len() == row.members@.len()
    &&& forall|m: int| 0 <= m < members.len() ==> string_views(row.members@).contains(#[trigger] members[m])
}

/// The first of the first `k` communities that the row shows.
pub open spec fn first_shown(
    nodes: Seq<CommunityNode>,
    roots: Seq<usize>,
    groups: Seq<Seq<CommunityNode>>,
    chats: Seq<String>,
    row: ChatRow,
    k: int,
) -> Option<int>
    decreases k,
{
    if k <= 0 {
        None
    } else {
        match first_shown(nodes, roots, groups, chats, row, k - 1) {
            Some(a) => Some(a),
            None => if row_shows_community(nodes[roots[k - 1] as int], groups[k - 1], chats, row) {
                Some(k - 1)
            } else {
                None
            },
        }
    }
}

fn all_members_listed(members: &Vec<String>, row: &ChatRow) -> (b: bool)
    ensures
        b == forall|m: int| 0 <= m < members@.len() ==> string_views(row.members@).contains(#[trigger] string_views(members@)[m]),
{
    let mut i: usize = 0;
    while i < members.len()
        invariant
            0 <= i <= members.len(),
            forall|m: int| 0 <= m < i ==> string_views(row.members@).contains(#[trigger] string_views(members@)[m]),
        decreases members.len() - i,
    {
        if !in_chat_list(row.members.as_slice(), members[i].as_str()) {
            assert(string_views(members@)[i as int] == members@[i as int]@);
            return false;
        }
        i += 1;
    }
    true
}

/// The community a chat list row shows, if any: the first community (in
/// list order) with the row's label whose joined linked groups that are
/// known chats are exactly the row's members.
pub fn selected_community_contact(
    nodes: &[CommunityNode],
    chats: &[String],
    contacts: &[(String, String)],
    row: &ChatRow,
) -> (r: Option<String>)
    ensures
        exists|roots: Seq<usize>, groups: Seq<Seq<CommunityNode>>, k: int|
            {
                &&& is_dedupe(nodes@, root_positions(nodes@, nodes@.len() as int), roots)
                &&& groups.len() == k <= roots.len()
                &&& forall|q: int|
                    0 <= q < k ==> linked_group_spec(
                        nodes@,
                        string_views(nodes@[roots[q] as int].linked_groups@),
                        link_names(contacts@, string_views(nodes@[roots[q] as int].linked_groups@)),
                        #[trigger] groups[q],
                    )
                &&& match r {
                    Some(j) => first_shown(nodes@, roots, groups, chats@, *row, k) == Some(k - 1) && j@
                        == nodes@[roots[k - 1] as int].jid@,
                    None => k == roots.len() && first_shown(nodes@, roots, groups, chats@, *row, k) is None,
                }
            },
{
    let mut root_cand: Vec<usize> = Vec::new();
    let mut i: usize = 0;
    while i < nodes.len()
        invariant
            0 <= i <= nodes.len(),
            root_cand@ == root_positions(nodes@, i as int),
            forall|j: int| 0 <= j < root_cand.len() ==> (#[trigger] root_cand@[j] as int) < i,
        decreases nodes.len() - i,
    {
        if nodes[i].is_root {
            root_cand.push(i);
        }
        i += 1;
    }
    let roots = dedupe_nodes(nodes, root_cand.as_slice());
    proof {
        assert forall|a: int| 0 <= a < roots.len() implies (#[trigger] roots@[a] as int) < nodes.len() by {
            assert(kept_candidate(nodes@, root_cand@, roots@[a]));
        }
    }
    let ghost mut groups: Seq<Seq<CommunityNode>> = Seq::empty();
    let mut k: usize = 0;
    while k < roots.len()
        invariant
            0 <= k <= roots.len(),
            is_dedupe(nodes@, root_positions(nodes@, nodes@.len() as int), roots@),
            forall|a: int| 0 <= a < roots.len() ==> (#[trigger] roots@[a] as int) < nodes.len(),
            groups.len() == k,
            forall|q: int|
                0 <= q < k ==> linked_group_spec(
                    nodes@,
                    string_views(nodes@[roots@[q] as int].linked_groups@),
                    link_names(contacts@, string_views(nodes@[roots@[q] as int].linked_groups@)),
                    #[trigger] groups[q],
                ),
            first_shown(nodes@, roots@, groups, chats@, *row, k as int) is None,
        decreases roots.len() - k,
    {
        let root = roots[k];
        let linked = linked_groups_of(nodes, root, contacts);
        let members = member_list(&linked, chats);
        let ghost old_groups = groups;
        proof {
            groups = groups.push(linked@);
            lemma_first_shown_prefix(nodes@, roots@, old_groups, linked@, chats@, *row, k as int);
        }
        let shows = compare_text(row.label.as_str(), nodes[root].name.as_str()) == Comparison::Equal
            && members.len() == row.members.len() && all_members_listed(&members, row);
        if shows {
            proof {
                assert(row_shows_community(nodes@[roots@[k as int] as int], groups[k as int], chats@, *row));
                assert(first_shown(nodes@, roots@, groups, chats@, *row, k + 1) == Some(k as int));
            }
            return Some(nodes[root].jid.clone());
        }
        proof {
            assert(!row_shows_community(nodes@[roots@[k as int] as int], groups[k as int], chats@, *row));
        }
        k += 1;
    }
    None
}

proof fn lemma_first_shown_prefix(
    nodes: Seq<CommunityNode>,
    roots: Seq<usize>,
    groups: Seq<Seq<CommunityNode>>,
    extra: Seq<CommunityNode>,
    chats: Seq<String>,
    row: ChatRow,
    q: int,
)
    requires
        0 <= q <= groups.len(),
    ensures
        first_shown(nodes, roots, groups.push(extra), chats, row, q) == first_shown(nodes, roots, groups, chats, row, q),
    decreases q,
{
    if q > 0 {
        lemma_first_shown_prefix(nodes, roots, groups, extra, chats, row, q - 1);
        assert(groups.push(extra)[q - 1] == groups[q - 1]);
    }
}

} // verus!
