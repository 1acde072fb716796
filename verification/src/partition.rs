//! Partitioning of extracted nodes for navigation: by kind for the index
//! page and by declared name for per-symbol grouping.
//!
//! Group keys appear in order of first appearance, and within each group
//! nodes keep first-appearance order from the extractor's output, so output
//! is reproducible across runs. A name collision (overloads, or a value and
//! a type sharing a name) forms one intentional group; no node is ever
//! dropped for colliding with another.

use vstd::prelude::*;
use vstd::multiset::Multiset;
use crate::decl::{DocNodeKind, DocNodeWithOrigin, SpecDocNodeWithOrigin, nodes_view};
use crate::parse::str_eq;

verus! {

/// Index of the group keyed `k`, if any.
pub open spec fn spec_group_index<K>(groups: Seq<(K, Seq<SpecDocNodeWithOrigin>)>, k: K) -> Option<
    int,
>
    decreases groups.len(),
{
    if groups.len() == 0 {
        None
    } else if groups[0].0 == k {
        Some(0int)
    } else {
        match spec_group_index(groups.skip(1), k) {
            None => None,
            Some(i) => Some(i + 1),
        }
    }
}

/// Insert one node: append it to its key's group, or open a new group at
/// the end.
pub open spec fn spec_group_insert<K>(
    groups: Seq<(K, Seq<SpecDocNodeWithOrigin>)>,
    k: K,
    n: SpecDocNodeWithOrigin,
) -> Seq<(K, Seq<SpecDocNodeWithOrigin>)> {
    match spec_group_index(groups, k) {
        None => groups.push((k, seq![n])),
        Some(i) => if 0 <= i < groups.len() {
            groups.update(i, (groups[i].0, groups[i].1.push(n)))
        } else {
            groups
        },
    }
}

/// Partition nodes by the given key, preserving first-appearance order of
/// keys and of nodes within each group.
pub open spec fn spec_partition<K>(
    nodes: Seq<SpecDocNodeWithOrigin>,
    key: spec_fn(SpecDocNodeWithOrigin) -> K,
) -> Seq<(K, Seq<SpecDocNodeWithOrigin>)>
    decreases nodes.len(),
{
    if nodes.len() == 0 {
        Seq::empty()
    } else {
        spec_group_insert(spec_partition(nodes.drop_last(), key), key(nodes.last()), nodes.last())
    }
}

/// The nodes whose key is `k`, in input order.
pub open spec fn spec_matching<K>(
    nodes: Seq<SpecDocNodeWithOrigin>,
    key: spec_fn(SpecDocNodeWithOrigin) -> K,
    k: K,
) -> Seq<SpecDocNodeWithOrigin>
    decreases nodes.len(),
{
    if nodes.len() == 0 {
        Seq::empty()
    } else {
        spec_matching(nodes.drop_last(), key, k) + (if key(nodes.last()) == k {
            seq![nodes.last()]
        } else {
            Seq::empty()
        })
    }
}

/// Some group of the partition carries the key `k`.
pub open spec fn spec_has_group<K>(groups: Seq<(K, Seq<SpecDocNodeWithOrigin>)>, k: K) -> bool {
    exists|i: int| 0 <= i < groups.len() && (#[trigger] groups[i]).0 == k
}

pub open spec fn by_kind_key() -> spec_fn(SpecDocNodeWithOrigin) -> DocNodeKind {
    |n: SpecDocNodeWithOrigin| n.node.kind
}

pub open spec fn by_name_key() -> spec_fn(SpecDocNodeWithOrigin) -> Seq<char> {
    |n: SpecDocNodeWithOrigin| n.node.name
}

pub open spec fn spec_partition_by_kind(nodes: Seq<SpecDocNodeWithOrigin>) -> Seq<
    (DocNodeKind, Seq<SpecDocNodeWithOrigin>),
> {
    spec_partition(nodes, by_kind_key())
}

pub open spec fn spec_partition_by_name(nodes: Seq<SpecDocNodeWithOrigin>) -> Seq<
    (Seq<char>, Seq<SpecDocNodeWithOrigin>),
> {
    spec_partition(nodes, by_name_key())
}

pub proof fn lemma_group_index_characterize<K>(groups: Seq<(K, Seq<SpecDocNodeWithOrigin>)>, k: K)
    ensures
        match spec_group_index(groups, k) {
            Some(i) => 0 <= i < groups.len() && groups[i].0 == k && (forall|j: int|
                0 <= j < i ==> (#[trigger] groups[j]).0 != k),
            None => forall|j: int| 0 <= j < groups.len() ==> (#[trigger] groups[j]).0 != k,
        },
    decreases groups.len(),
{
    if groups.len() > 0 {
        let t = groups.skip(1);
        lemma_group_index_characterize(t, k);
        assert(forall|j: int| 0 <= j < t.len() ==> #[trigger] t[j] == groups[j + 1]);
        assert(forall|j: int| 1 <= j < groups.len() ==> #[trigger] groups[j] == t[j - 1]);
    }
}

pub proof fn lemma_group_index_from_facts<K>(
    groups: Seq<(K, Seq<SpecDocNodeWithOrigin>)>,
    k: K,
    i: int,
)
    requires
        0 <= i <= groups.len(),
        forall|j: int| 0 <= j < i ==> (#[trigger] groups[j]).0 != k,
        i == groups.len() || groups[i].0 == k,
    ensures
        spec_group_index(groups, k) == if i == groups.len() {
            None::<int>
        } else {
            Some(i)
        },
    decreases groups.len(),
{
    if groups.len() > 0 && i > 0 {
        let t = groups.skip(1);
        assert(forall|j: int| 0 <= j < t.len() ==> #[trigger] t[j] == groups[j + 1]);
        assert(forall|j: int| 1 <= j < groups.len() ==> #[trigger] groups[j] == t[j - 1]);
        lemma_group_index_from_facts(t, k, i - 1);
    }
}

proof fn lemma_matching_none<K>(
    nodes: Seq<SpecDocNodeWithOrigin>,
    key: spec_fn(SpecDocNodeWithOrigin) -> K,
    k: K,
)
    requires
        forall|j: int| 0 <= j < nodes.len() ==> key(#[trigger] nodes[j]) != k,
    ensures
        spec_matching(nodes, key, k) == Seq::<SpecDocNodeWithOrigin>::empty(),
    decreases nodes.len(),
{
    if nodes.len() > 0 {
        let dl = nodes.drop_last();
        assert(forall|j: int| 0 <= j < dl.len() ==> #[trigger] dl[j] == nodes[j]);
        lemma_matching_none(dl, key, k);
        assert(key(nodes.last()) != k);
        assert(spec_matching(nodes, key, k) =~= Seq::<SpecDocNodeWithOrigin>::empty());
    }
}

/// Every node of `spec_matching` comes from the input and carries key `k`.
pub proof fn lemma_matching_elems<K>(
    nodes: Seq<SpecDocNodeWithOrigin>,
    key: spec_fn(SpecDocNodeWithOrigin) -> K,
    k: K,
)
    ensures
        forall|j: int|
            0 <= j < spec_matching(nodes, key, k).len() ==> nodes.contains(
                #[trigger] spec_matching(nodes, key, k)[j],
            ) && key(spec_matching(nodes, key, k)[j]) == k,
    decreases nodes.len(),
{
    if nodes.len() > 0 {
        let dl = nodes.drop_last();
        lemma_matching_elems(dl, key, k);
        let m = spec_matching(nodes, key, k);
        let md = spec_matching(dl, key, k);
        assert forall|j: int| 0 <= j < m.len() implies nodes.contains(#[trigger] m[j]) && key(
            m[j],
        ) == k by {
            if j < md.len() {
                assert(m[j] == md[j]);
                assert(dl.contains(md[j]));
                let idx = choose|idx: int| 0 <= idx < dl.len() && dl[idx] == md[j];
                assert(nodes[idx] == md[j]);
            } else {
                assert(key(nodes.last()) == k);
                assert(m[j] == nodes.last());
                assert(nodes[nodes.len() - 1] == nodes.last());
            }
        }
    }
}

/// The by-key partition of any input is a total, disjoint cover: keys are
/// pairwise distinct, every group holds exactly the input's nodes of its
/// key in input order, every group is non-empty, and every input node's key
/// has a group.
pub proof fn lemma_partition_cover<K>(
    nodes: Seq<SpecDocNodeWithOrigin>,
    key: spec_fn(SpecDocNodeWithOrigin) -> K,
)
    ensures
        forall|i: int, j: int|
            0 <= i < j < spec_partition(nodes, key).len() ==> (#[trigger] spec_partition(
                nodes,
                key,
            )[i]).0 != (#[trigger] spec_partition(nodes, key)[j]).0,
        forall|i: int|
            0 <= i < spec_partition(nodes, key).len() ==> (#[trigger] spec_partition(
                nodes,
                key,
            )[i]).1 == spec_matching(nodes, key, spec_partition(nodes, key)[i].0),
        forall|i: int|
            0 <= i < spec_partition(nodes, key).len() ==> (#[trigger] spec_partition(
                nodes,
                key,
            )[i]).1.len() > 0,
        forall|x: SpecDocNodeWithOrigin|
            #[trigger] nodes.contains(x) ==> exists|i: int|
                0 <= i < spec_partition(nodes, key).len() && (#[trigger] spec_partition(
                    nodes,
                    key,
                )[i]).0 == key(x),
    decreases nodes.len(),
{
    if nodes.len() > 0 {
        let dl = nodes.drop_last();
        let x = nodes.last();
        let k = key(x);
        lemma_partition_cover(dl, key);
        let gs = spec_partition(dl, key);
        let groups = spec_partition(nodes, key);
        lemma_group_index_characterize(gs, k);
        assert(forall|j: int| 0 <= j < dl.len() ==> #[trigger] dl[j] == nodes[j]);
        match spec_group_index(gs, k) {
            None => {
                assert(groups == gs.push((k, seq![x])));
                assert forall|j: int| 0 <= j < dl.len() implies key(#[trigger] dl[j]) != k by {
                    assert(dl.contains(dl[j]));
                    if key(dl[j]) == k {
                        let i0 = choose|i0: int|
                            0 <= i0 < gs.len() && (#[trigger] gs[i0]).0 == key(dl[j]);
                        assert(false);
                    }
                }
                lemma_matching_none(dl, key, k);
                assert forall|i: int| 0 <= i < groups.len() implies (#[trigger] groups[i]).1
                    == spec_matching(nodes, key, groups[i].0) by {
                    if i < groups.len() - 1 {
                        assert(groups[i] == gs[i]);
                        assert(gs[i].0 != k);
                        assert(spec_matching(nodes, key, gs[i].0) =~= spec_matching(
                            dl,
                            key,
                            gs[i].0,
                        ));
                    } else {
                        assert(groups[i] == (k, seq![x]));
                        assert(spec_matching(nodes, key, k) =~= seq![x]);
                    }
                }
                assert forall|y: SpecDocNodeWithOrigin| #[trigger] nodes.contains(y) implies exists|
                    i: int,
                | 0 <= i < groups.len() && (#[trigger] groups[i]).0 == key(y) by {
                    let idx = choose|idx: int| 0 <= idx < nodes.len() && nodes[idx] == y;
                    if idx < nodes.len() - 1 {
                        assert(dl[idx] == y);
                        assert(dl.contains(y));
                        let i0 = choose|i0: int|
                            0 <= i0 < gs.len() && (#[trigger] gs[i0]).0 == key(y);
                        assert(groups[i0] == gs[i0]);
                        assert(0 <= i0 < groups.len() && groups[i0].0 == key(y));
                    } else {
                        assert(y == x);
                        assert(groups[groups.len() - 1].0 == key(y));
                    }
                }
            },
            Some(gi) => {
                assert(groups == gs.update(gi, (gs[gi].0, gs[gi].1.push(x))));
                assert(forall|j: int|
                    0 <= j < groups.len() ==> (#[trigger] groups[j]).0 == gs[j].0);
                assert forall|i: int| 0 <= i < groups.len() implies (#[trigger] groups[i]).1
                    == spec_matching(nodes, key, groups[i].0) by {
                    if i != gi {
                        assert(groups[i] == gs[i]);
                        assert(gs[i].0 != k);
                        assert(spec_matching(nodes, key, gs[i].0) =~= spec_matching(
                            dl,
                            key,
                            gs[i].0,
                        ));
                    } else {
                        assert(groups[i].1 == gs[gi].1.push(x));
                        assert(gs[gi].1 == spec_matching(dl, key, k));
                        assert(spec_matching(nodes, key, k) =~= spec_matching(dl, key, k).push(x));
                    }
                }
                assert forall|y: SpecDocNodeWithOrigin| #[trigger] nodes.contains(y) implies exists|
                    i: int,
                | 0 <= i < groups.len() && (#[trigger] groups[i]).0 == key(y) by {
                    let idx = choose|idx: int| 0 <= idx < nodes.len() && nodes[idx] == y;
                    if idx < nodes.len() - 1 {
                        assert(dl[idx] == y);
                        assert(dl.contains(y));
                        let i0 = choose|i0: int|
                            0 <= i0 < gs.len() && (#[trigger] gs[i0]).0 == key(y);
                        assert(0 <= i0 < groups.len() && groups[i0].0 == key(y));
                    } else {
                        assert(y == x);
                        assert(0 <= gi < groups.len() && groups[gi].0 == key(y));
                    }
                }
            },
        }
    }
}

/// `spec_matching` seen as a multiset is the input multiset filtered to the
/// key.
pub proof fn lemma_matching_multiset<K>(
    nodes: Seq<SpecDocNodeWithOrigin>,
    key: spec_fn(SpecDocNodeWithOrigin) -> K,
    k: K,
)
    ensures
        spec_matching(nodes, key, k).to_multiset() == nodes.to_multiset().filter(
            |x: SpecDocNodeWithOrigin| key(x) == k,
        ),
    decreases nodes.len(),
{
    broadcast use vstd::seq_lib::group_to_multiset_ensures;
    broadcast use vstd::multiset::group_multiset_axioms;

    let f = |x: SpecDocNodeWithOrigin| key(x) == k;
    if nodes.len() == 0 {
        let lhs = spec_matching(nodes, key, k).to_multiset();
        let rhs = nodes.to_multiset().filter(f);
        assert forall|v: SpecDocNodeWithOrigin| lhs.count(v) == rhs.count(v) by {
            assert(!spec_matching(nodes, key, k).contains(v));
            assert(!nodes.contains(v));
        }
        assert(lhs =~= rhs);
    } else {
        let dl = nodes.drop_last();
        let x = nodes.last();
        lemma_matching_multiset(dl, key, k);
        assert(nodes =~= dl.push(x));
        assert(dl.push(x).to_multiset() =~= dl.to_multiset().insert(x));
        let m = dl.to_multiset();
        if key(x) == k {
            assert(spec_matching(nodes, key, k) =~= spec_matching(dl, key, k).push(x));
            assert(spec_matching(dl, key, k).push(x).to_multiset() =~= spec_matching(
                dl,
                key,
                k,
            ).to_multiset().insert(x));
            assert forall|v: SpecDocNodeWithOrigin|
                m.insert(x).filter(f).count(v) == m.filter(f).insert(x).count(v) by {}
            assert(m.insert(x).filter(f) =~= m.filter(f).insert(x));
        } else {
            assert(spec_matching(nodes, key, k) =~= spec_matching(dl, key, k));
            assert forall|v: SpecDocNodeWithOrigin|
                m.insert(x).filter(f).count(v) == m.filter(f).count(v) by {}
            assert(m.insert(x).filter(f) =~= m.filter(f));
        }
    }
}

/// Which nodes are grouped together depends only on their keys, never on
/// input order: inputs that are permutations of one another yield
/// partitions with the same key set, and for each key the groups hold the
/// same nodes as multisets — only listing order inside a group may differ.
pub proof fn lemma_partition_order_independent<K>(
    ns1: Seq<SpecDocNodeWithOrigin>,
    ns2: Seq<SpecDocNodeWithOrigin>,
    key: spec_fn(SpecDocNodeWithOrigin) -> K,
)
    requires
        ns1.to_multiset() == ns2.to_multiset(),
    ensures
        forall|k: K|
            #[trigger] spec_has_group(spec_partition(ns1, key), k) <==> #[trigger] spec_has_group(
                spec_partition(ns2, key),
                k,
            ),
        forall|k: K|
            #[trigger] spec_matching(ns1, key, k).to_multiset() == spec_matching(
                ns2,
                key,
                k,
            ).to_multiset(),
{
    broadcast use vstd::seq_lib::group_to_multiset_ensures;

    lemma_partition_cover(ns1, key);
    lemma_partition_cover(ns2, key);
    assert forall|k: K|
        #[trigger] spec_matching(ns1, key, k).to_multiset() == spec_matching(
            ns2,
            key,
            k,
        ).to_multiset() by {
        lemma_matching_multiset(ns1, key, k);
        lemma_matching_multiset(ns2, key, k);
    }
    assert forall|k: K|
        #[trigger] spec_has_group(spec_partition(ns1, key), k) <==> #[trigger] spec_has_group(
            spec_partition(ns2, key),
            k,
        ) by {
        if spec_has_group(spec_partition(ns1, key), k) {
            lemma_partition_present(ns1, ns2, key, k);
        }
        if spec_has_group(spec_partition(ns2, key), k) {
            lemma_partition_present(ns2, ns1, key, k);
        }
    }
}

proof fn lemma_partition_present<K>(
    ns1: Seq<SpecDocNodeWithOrigin>,
    ns2: Seq<SpecDocNodeWithOrigin>,
    key: spec_fn(SpecDocNodeWithOrigin) -> K,
    k: K,
)
    requires
        ns1.to_multiset() == ns2.to_multiset(),
        spec_has_group(spec_partition(ns1, key), k),
    ensures
        spec_has_group(spec_partition(ns2, key), k),
{
    broadcast use vstd::seq_lib::group_to_multiset_ensures;

    lemma_partition_cover(ns1, key);
    lemma_partition_cover(ns2, key);
    lemma_matching_multiset(ns1, key, k);
    lemma_matching_multiset(ns2, key, k);
    let p1 = spec_partition(ns1, key);
    let i0 = choose|i0: int| 0 <= i0 < p1.len() && (#[trigger] p1[i0]).0 == k;
    assert(p1[i0].1 == spec_matching(ns1, key, k));
    assert(p1[i0].1.len() > 0);
    assert(spec_matching(ns1, key, k).to_multiset().len() == spec_matching(ns1, key, k).len());
    assert(spec_matching(ns2, key, k).to_multiset().len() == spec_matching(ns2, key, k).len());
    assert(spec_matching(ns2, key, k).len() > 0);
    lemma_matching_elems(ns2, key, k);
    let y = spec_matching(ns2, key, k)[0];
    assert(ns2.contains(y) && key(y) == k);
}

/// Law: the union of the by-kind groups reconstructs the exact input node
/// set with no loss or duplication — keys are pairwise distinct, every
/// group holds precisely the input's nodes of its kind in input order, and
/// every input node's kind has a group.
pub proof fn lemma_partition_by_kind_cover(nodes: Seq<SpecDocNodeWithOrigin>)
    ensures
        forall|i: int, j: int|
            0 <= i < j < spec_partition_by_kind(nodes).len() ==> (#[trigger] spec_partition_by_kind(
                nodes,
            )[i]).0 != (#[trigger] spec_partition_by_kind(nodes)[j]).0,
        forall|i: int|
            0 <= i < spec_partition_by_kind(nodes).len() ==> (#[trigger] spec_partition_by_kind(
                nodes,
            )[i]).1 == spec_matching(nodes, by_kind_key(), spec_partition_by_kind(nodes)[i].0),
        forall|x: SpecDocNodeWithOrigin|
            #[trigger] nodes.contains(x) ==> exists|i: int|
                0 <= i < spec_partition_by_kind(nodes).len() && (#[trigger] spec_partition_by_kind(
                    nodes,
                )[i]).0 == x.node.kind,
{
    lemma_partition_cover(nodes, by_kind_key());
    assert forall|x: SpecDocNodeWithOrigin| #[trigger] nodes.contains(x) implies exists|i: int|
        0 <= i < spec_partition_by_kind(nodes).len() && (#[trigger] spec_partition_by_kind(
            nodes,
        )[i]).0 == x.node.kind by {
        let kf = by_kind_key();
        let i0 = choose|i0: int|
            0 <= i0 < spec_partition(nodes, kf).len() && (#[trigger] spec_partition(
                nodes,
                kf,
            )[i0]).0 == kf(x);
        assert(kf(x) == x.node.kind);
        assert((spec_partition_by_kind(nodes)[i0]).0 == x.node.kind);
    }
}

/// Law: grouping by declared name is independent of declaration order —
/// permuting unrelated declarations never changes which symbols share a
/// group, only the order in which a group lists them.
pub proof fn lemma_partition_by_name_order_independent(
    ns1: Seq<SpecDocNodeWithOrigin>,
    ns2: Seq<SpecDocNodeWithOrigin>,
)
    requires
        ns1.to_multiset() == ns2.to_multiset(),
    ensures
        forall|k: Seq<char>|
            #[trigger] spec_has_group(spec_partition_by_name(ns1), k)
                <==> #[trigger] spec_has_group(spec_partition_by_name(ns2), k),
        forall|k: Seq<char>|
            #[trigger] spec_matching(ns1, by_name_key(), k).to_multiset() == spec_matching(
                ns2,
                by_name_key(),
                k,
            ).to_multiset(),
{
    lemma_partition_order_independent(ns1, ns2, by_name_key());
}

/// The view of a by-kind partition.
pub open spec fn kind_groups_view(v: Seq<(DocNodeKind, Vec<DocNodeWithOrigin>)>) -> Seq<
    (DocNodeKind, Seq<SpecDocNodeWithOrigin>),
> {
    v.map_values(|g: (DocNodeKind, Vec<DocNodeWithOrigin>)| (g.0, nodes_view(g.1@)))
}

/// The view of a by-name partition.
pub open spec fn name_groups_view(v: Seq<(String, Vec<DocNodeWithOrigin>)>) -> Seq<
    (Seq<char>, Seq<SpecDocNodeWithOrigin>),
> {
    v.map_values(|g: (String, Vec<DocNodeWithOrigin>)| (g.0@, nodes_view(g.1@)))
}

fn kind_index(groups: &Vec<(DocNodeKind, Vec<DocNodeWithOrigin>)>, k: DocNodeKind) -> (r: Option<
    usize,
>)
    ensures
        spec_group_index(kind_groups_view(groups@), k) == match r {
            Some(i) => Some(i as int),
            None => None::<int>,
        },
        r matches Some(i) ==> i < groups@.len(),
{
    let n = groups.len();
    let mut i: usize = 0;
    while i < n
        invariant
            n == groups@.len(),
            i <= n,
            forall|j: int| 0 <= j < i ==> (#[trigger] kind_groups_view(groups@)[j]).0 != k,
        decreases n - i,
    {
        let hit = {
            let pair = &groups[i];
            pair.0 == k
        };
        if hit {
            proof {
                lemma_group_index_from_facts(kind_groups_view(groups@), k, i as int);
            }
            return Some(i);
        }
        proof {
            assert((kind_groups_view(groups@)[i as int]).0 != k);
        }
        i += 1;
    }
    proof {
        lemma_group_index_from_facts(kind_groups_view(groups@), k, n as int);
    }
    None
}

fn name_index(groups: &Vec<(String, Vec<DocNodeWithOrigin>)>, name: &str) -> (r: Option<usize>)
    ensures
        spec_group_index(name_groups_view(groups@), name@) == match r {
            Some(i) => Some(i as int),
            None => None::<int>,
        },
        r matches Some(i) ==> i < groups@.len(),
{
    let n = groups.len();
    let mut i: usize = 0;
    while i < n
        invariant
            n == groups@.len(),
            i <= n,
            forall|j: int| 0 <= j < i ==> (#[trigger] name_groups_view(groups@)[j]).0 != name@,
        decreases n - i,
    {
        let hit = {
            let pair = &groups[i];
            str_eq(pair.0.as_str(), name)
        };
        if hit {
            proof {
                lemma_group_index_from_facts(name_groups_view(groups@), name@, i as int);
            }
            return Some(i);
        }
        proof {
            assert((name_groups_view(groups@)[i as int]).0 != name@);
        }
        i += 1;
    }
    proof {
        lemma_group_index_from_facts(name_groups_view(groups@), name@, n as int);
    }
    None
}

/// Group the nodes by kind, for the index page: keys in order of first
/// appearance, nodes within a group in input order.
pub fn partition_by_kind(nodes: &Vec<DocNodeWithOrigin>) -> (r: Vec<
    (DocNodeKind, Vec<DocNodeWithOrigin>),
>)
    ensures
        kind_groups_view(r@) == spec_partition_by_kind(nodes_view(nodes@)),
{
    let ghost nv_all = nodes_view(nodes@);
    let ghost kf = by_kind_key();
    let mut groups: Vec<(DocNodeKind, Vec<DocNodeWithOrigin>)> = Vec::new();
    let n = nodes.len();
    let mut i: usize = 0;
    proof {
        assert(nv_all.take(0) =~= Seq::<SpecDocNodeWithOrigin>::empty());
        assert(kind_groups_view(groups@) =~= Seq::<
            (DocNodeKind, Seq<SpecDocNodeWithOrigin>),
        >::empty());
    }
    while i < n
        invariant
            n == nodes@.len(),
            i <= n,
            nv_all == nodes_view(nodes@),
            kf == by_kind_key(),
            kind_groups_view(groups@) == spec_partition(nv_all.take(i as int), kf),
        decreases n - i,
    {
        let ghost prev = kind_groups_view(groups@);
        let node = (&nodes[i]).duplicate();
        let ghost nv = node@;
        let k = node.node.kind;
        proof {
            assert(nv == nv_all[i as int]);
            assert(kf(nv) == k);
        }
        match kind_index(&groups, k) {
            None => {
                let mut single: Vec<DocNodeWithOrigin> = Vec::new();
                single.push(node);
                groups.push((k, single));
                proof {
                    assert(nodes_view(single@) =~= seq![nv]);
                    assert(kind_groups_view(groups@) =~= prev.push((k, seq![nv])));
                }
            },
            Some(gi) => {
                let mut pair = groups.remove(gi);
                pair.1.push(node);
                groups.insert(gi, pair);
                proof {
                    assert(nodes_view(pair.1@) =~= prev[gi as int].1.push(nv));
                    assert(kind_groups_view(groups@) =~= prev.update(
                        gi as int,
                        (prev[gi as int].0, prev[gi as int].1.push(nv)),
                    ));
                }
            },
        }
        proof {
            assert(nv_all.take(i + 1).drop_last() =~= nv_all.take(i as int));
            assert(nv_all.take(i + 1).last() == nv_all[i as int]);
            assert(kind_groups_view(groups@) =~= spec_partition(nv_all.take(i + 1), kf));
        }
        i += 1;
    }
    proof {
        assert(nv_all.take(n as int) =~= nv_all);
    }
    groups
}

/// Group the nodes by declared name, for per-symbol pages: one group per
/// distinct top-level name, holding its overloads and colliding
/// declarations in input order.
pub fn partition_by_name(nodes: &Vec<DocNodeWithOrigin>) -> (r: Vec<
    (String, Vec<DocNodeWithOrigin>),
>)
    ensures
        name_groups_view(r@) == spec_partition_by_name(nodes_view(nodes@)),
{
    let ghost nv_all = nodes_view(nodes@);
    let ghost kf = by_name_key();
    let mut groups: Vec<(String, Vec<DocNodeWithOrigin>)> = Vec::new();
    let n = nodes.len();
    let mut i: usize = 0;
    proof {
        assert(nv_all.take(0) =~= Seq::<SpecDocNodeWithOrigin>::empty());
        assert(name_groups_view(groups@) =~= Seq::<
            (Seq<char>, Seq<SpecDocNodeWithOrigin>),
        >::empty());
    }
    while i < n
        invariant
            n == nodes@.len(),
            i <= n,
            nv_all == nodes_view(nodes@),
            kf == by_name_key(),
            name_groups_view(groups@) == spec_partition(nv_all.take(i as int), kf),
        decreases n - i,
    {
        let ghost prev = name_groups_view(groups@);
        let node = (&nodes[i]).duplicate();
        let ghost nv = node@;
        proof {
            assert(nv == nv_all[i as int]);
            assert(kf(nv) == nv.node.name);
        }
        match name_index(&groups, node.node.name.as_str()) {
            None => {
                let key_text = node.node.name.clone();
                let mut single: Vec<DocNodeWithOrigin> = Vec::new();
                single.push(node);
                groups.push((key_text, single));
                proof {
                    assert(nodes_view(single@) =~= seq![nv]);
                    assert(name_groups_view(groups@) =~= prev.push((nv.node.name, seq![nv])));
                }
            },
            Some(gi) => {
                let mut pair = groups.remove(gi);
                pair.1.push(node);
                groups.insert(gi, pair);
                proof {
                    assert(nodes_view(pair.1@) =~= prev[gi as int].1.push(nv));
                    assert(name_groups_view(groups@) =~= prev.update(
                        gi as int,
                        (prev[gi as int].0, prev[gi as int].1.push(nv)),
                    ));
                }
            },
        }
        proof {
            assert(nv_all.take(i + 1).drop_last() =~= nv_all.take(i as int));
            assert(nv_all.take(i + 1).last() == nv_all[i as int]);
            assert(name_groups_view(groups@) =~= spec_partition(nv_all.take(i + 1), kf));
        }
        i += 1;
    }
    proof {
        assert(nv_all.take(n as int) =~= nv_all);
    }
    groups
}

} // verus!
