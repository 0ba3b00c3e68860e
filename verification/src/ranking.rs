//! The order in which a directory shows its children: largest first, and
//! among children of one size, first scanned first.

use vstd::prelude::*;
use crate::node::{descending, lemma_total_size_push, node_views, total_size, NodeView, ScanNode};

verus! {

/// The test for a node of `size` bytes.
pub open spec fn has_size(size: u64) -> spec_fn(NodeView) -> bool {
    |node: NodeView| node.size == size
}

/// Those of `nodes` that weigh `size` bytes, in the order in which they stand.
pub open spec fn of_size(nodes: Seq<NodeView>, size: u64) -> Seq<NodeView> {
    nodes.filter(has_size(size))
}

/// `a` and `b` hold, for each size, the same nodes in the same order.
pub open spec fn keeps_ties(a: Seq<NodeView>, b: Seq<NodeView>) -> bool {
    forall|size: u64| #[trigger] of_size(a, size) == of_size(b, size)
}

/// `ranked` with `node` put behind every node that is at least as large.
pub open spec fn insert_ranked(ranked: Seq<NodeView>, node: NodeView) -> Seq<NodeView>
    decreases ranked.len(),
{
    if ranked.len() > 0 && ranked.last().size < node.size {
        insert_ranked(ranked.drop_last(), node).push(ranked.last())
    } else {
        ranked.push(node)
    }
}

/// `nodes` in order of non-increasing size, nodes of one size in the order in
/// which they stand in `nodes`: what a stable sort by descending size gives.
pub open spec fn ranked_by_size(nodes: Seq<NodeView>) -> Seq<NodeView>
    decreases nodes.len(),
{
    if nodes.len() == 0 {
        nodes
    } else {
        insert_ranked(ranked_by_size(nodes.drop_last()), nodes.last())
    }
}

/// Every node of `high` is at least as large as every node of `low`.
pub open spec fn dominates(high: Seq<NodeView>, low: Seq<NodeView>) -> bool {
    forall|i: int, j: int|
        0 <= i < high.len() && 0 <= j < low.len() ==> (#[trigger] high[i]).size >= (
        #[trigger] low[j]).size
}

/// Every node of `low` is smaller than every node of `high`.
pub open spec fn strictly_below(low: Seq<NodeView>, high: Seq<NodeView>) -> bool {
    forall|i: int, j: int|
        0 <= i < low.len() && 0 <= j < high.len() ==> (#[trigger] low[i]).size < (
        #[trigger] high[j]).size
}

/// The values of `nodes`, last node first.
pub open spec fn reversed_views(nodes: Seq<ScanNode>) -> Seq<NodeView> {
    Seq::new(nodes.len(), |i: int| nodes[nodes.len() - 1 - i]@)
}

/// Pushing a node onto a sequence appends it to the nodes of its size and
/// leaves those of every other size as they were.
proof fn lemma_of_size_push(nodes: Seq<NodeView>, node: NodeView, size: u64)
    ensures
        of_size(nodes.push(node), size) == if node.size == size {
            of_size(nodes, size).push(node)
        } else {
            of_size(nodes, size)
        },
{
    reveal(Seq::filter);
    assert(nodes.push(node).drop_last() =~= nodes);
}

/// One node alone is the only node of its size.
proof fn lemma_of_size_single(node: NodeView, size: u64)
    ensures
        of_size(seq![node], size) == if node.size == size {
            seq![node]
        } else {
            Seq::<NodeView>::empty()
        },
{
    reveal(Seq::filter);
    lemma_of_size_push(Seq::<NodeView>::empty(), node, size);
}

/// Where no node weighs `size` bytes, none is found.
proof fn lemma_of_size_none(nodes: Seq<NodeView>, size: u64)
    requires
        forall|i: int| 0 <= i < nodes.len() ==> (#[trigger] nodes[i]).size != size,
    ensures
        of_size(nodes, size).len() == 0,
    decreases nodes.len(),
{
    reveal(Seq::filter);
    if nodes.len() > 0 {
        lemma_of_size_none(nodes.drop_last(), size);
    }
}

/// A node that weighs `size` bytes is found.
proof fn lemma_of_size_some(nodes: Seq<NodeView>, size: u64, i: int)
    requires
        0 <= i < nodes.len(),
        nodes[i].size == size,
    ensures
        of_size(nodes, size).len() > 0,
{
    nodes.lemma_filter_contains(has_size(size), i);
}

/// Where a node of `size` bytes is found, one stands in the sequence.
proof fn lemma_of_size_witness(nodes: Seq<NodeView>, size: u64) -> (i: int)
    requires
        of_size(nodes, size).len() > 0,
    ensures
        0 <= i < nodes.len(),
        nodes[i].size == size,
{
    if forall|j: int| 0 <= j < nodes.len() ==> (#[trigger] nodes[j]).size != size {
        lemma_of_size_none(nodes, size);
    }
    choose|j: int| 0 <= j < nodes.len() && (#[trigger] nodes[j]).size == size
}

/// Whatever is found among `nodes` stands in `nodes`.
pub proof fn lemma_of_size_within(nodes: Seq<NodeView>, size: u64, k: int)
    requires
        0 <= k < of_size(nodes, size).len(),
    ensures
        nodes.contains(of_size(nodes, size)[k]),
    decreases nodes.len(),
{
    reveal(Seq::filter);
    if nodes.len() > 0 {
        let rest = nodes.drop_last();
        if k < of_size(rest, size).len() {
            lemma_of_size_within(rest, size, k);
            let j = choose|j: int| 0 <= j < rest.len() && rest[j] == of_size(rest, size)[k];
            assert(nodes[j] == of_size(nodes, size)[k]);
        } else {
            assert(nodes[nodes.len() - 1] == of_size(nodes, size)[k]);
        }
    }
}

/// Joining two sequences joins, size by size, what is found of that size.
proof fn lemma_of_size_add(a: Seq<NodeView>, b: Seq<NodeView>, size: u64)
    ensures
        of_size(a + b, size) == of_size(a, size) + of_size(b, size),
{
    Seq::filter_distributes_over_add(a, b, has_size(size));
}

/// Putting a node into a ranked sequence keeps every node at or above a
/// bound that the node and the sequence both respect.
proof fn lemma_insert_ranked_floor(ranked: Seq<NodeView>, node: NodeView, bound: u64)
    requires
        node.size >= bound,
        forall|i: int| 0 <= i < ranked.len() ==> (#[trigger] ranked[i]).size >= bound,
    ensures
        forall|i: int|
            0 <= i < insert_ranked(ranked, node).len() ==> (#[trigger] insert_ranked(
                ranked,
                node,
            )[i]).size >= bound,
    decreases ranked.len(),
{
    if ranked.len() > 0 && ranked.last().size < node.size {
        lemma_insert_ranked_floor(ranked.drop_last(), node, bound);
    }
}

/// Putting a node into a ranked sequence leaves it ranked, adds the node
/// behind those of its size, and adds its size to the total.
proof fn lemma_insert_ranked(ranked: Seq<NodeView>, node: NodeView)
    requires
        descending(ranked),
    ensures
        descending(insert_ranked(ranked, node)),
        keeps_ties(insert_ranked(ranked, node), ranked.push(node)),
        insert_ranked(ranked, node).len() == ranked.len() + 1,
        total_size(insert_ranked(ranked, node)) == total_size(ranked) + node.size,
    decreases ranked.len(),
{
    if ranked.len() > 0 && ranked.last().size < node.size {
        let rest = ranked.drop_last();
        let last = ranked.last();
        let inner = insert_ranked(rest, node);
        lemma_insert_ranked(rest, node);
        lemma_insert_ranked_floor(rest, node, last.size);
        assert(ranked =~= rest.push(last));
        assert forall|size: u64| #[trigger] of_size(inner.push(last), size) == of_size(
            ranked.push(node),
            size,
        ) by {
            lemma_of_size_push(inner, last, size);
            lemma_of_size_push(rest, node, size);
            lemma_of_size_push(rest, last, size);
            lemma_of_size_push(ranked, node, size);
        }
        lemma_total_size_push(inner, last);
        lemma_total_size_push(rest, last);
    } else {
        lemma_total_size_push(ranked, node);
    }
}

/// The ranking of a sequence stands in order of non-increasing size, holds
/// the nodes of each size in their first order, and holds as many nodes and
/// as many bytes as the sequence.
pub proof fn lemma_ranked_by_size(nodes: Seq<NodeView>)
    ensures
        descending(ranked_by_size(nodes)),
        keeps_ties(ranked_by_size(nodes), nodes),
        ranked_by_size(nodes).len() == nodes.len(),
        total_size(ranked_by_size(nodes)) == total_size(nodes),
    decreases nodes.len(),
{
    if nodes.len() > 0 {
        let rest = nodes.drop_last();
        let last = nodes.last();
        lemma_ranked_by_size(rest);
        lemma_insert_ranked(ranked_by_size(rest), last);
        assert(nodes =~= rest.push(last));
        assert forall|size: u64| #[trigger] of_size(ranked_by_size(nodes), size) == of_size(
            nodes,
            size,
        ) by {
            lemma_of_size_push(ranked_by_size(rest), last, size);
            lemma_of_size_push(rest, last, size);
        }
    }
}

/// Two sequences in order of non-increasing size that hold, for each size,
/// the same nodes in the same order are one sequence: the order of a
/// directory's children is settled by their sizes and the order in which
/// they were scanned.
pub proof fn lemma_ranking_unique(a: Seq<NodeView>, b: Seq<NodeView>)
    requires
        descending(a),
        descending(b),
        keeps_ties(a, b),
    ensures
        a == b,
    decreases a.len(),
{
    if a.len() == 0 {
        if b.len() > 0 {
            let size = b.last().size;
            lemma_of_size_some(b, size, b.len() - 1);
            assert(of_size(a, size) == of_size(b, size));
            lemma_of_size_none(a, size);
        }
        assert(a =~= b);
    } else {
        let size = a.last().size;
        lemma_of_size_some(a, size, a.len() - 1);
        assert(of_size(a, size) == of_size(b, size));
        let j = lemma_of_size_witness(b, size);
        let other = b.last().size;
        lemma_of_size_some(b, other, b.len() - 1);
        assert(of_size(a, other) == of_size(b, other));
        let i = lemma_of_size_witness(a, other);
        // The last node of each is its smallest, and each holds a node as
        // small as the other's last.
        assert(b[j].size >= other && a[i].size >= size);
        assert(size == other);
        let a_rest = a.drop_last();
        let b_rest = b.drop_last();
        assert(a =~= a_rest.push(a.last()));
        assert(b =~= b_rest.push(b.last()));
        assert forall|k: u64| #[trigger] of_size(a_rest, k) == of_size(b_rest, k) by {
            lemma_of_size_push(a_rest, a.last(), k);
            lemma_of_size_push(b_rest, b.last(), k);
            assert(of_size(a, k) == of_size(b, k));
            if k == size {
                let fa = of_size(a_rest, k);
                let fb = of_size(b_rest, k);
                assert(fa.push(a.last()) == fb.push(b.last()));
                assert(fa =~= fa.push(a.last()).drop_last());
                assert(fb =~= fb.push(b.last()).drop_last());
            }
        }
        assert(a.last() == b.last()) by {
            lemma_of_size_push(a_rest, a.last(), size);
            lemma_of_size_push(b_rest, b.last(), size);
            let fa = of_size(a_rest, size);
            let fb = of_size(b_rest, size);
            assert(fa.push(a.last()) == fb.push(b.last()));
            assert(fa.push(a.last()).last() == a.last());
            assert(fb.push(b.last()).last() == b.last());
        }
        lemma_ranking_unique(a_rest, b_rest);
    }
}

/// Merges two ranked vectors into one. Of two nodes of one size, the one
/// from `left` comes first.
fn merge_ranked(left: Vec<ScanNode>, right: Vec<ScanNode>) -> (merged: Vec<ScanNode>)
    requires
        descending(node_views(left@)),
        descending(node_views(right@)),
    ensures
        descending(node_views(merged@)),
        forall|size: u64| #[trigger]
            of_size(node_views(merged@), size) == of_size(node_views(left@), size) + of_size(
                node_views(right@),
                size,
            ),
{
    let ghost l0 = node_views(left@);
    let ghost r0 = node_views(right@);
    let mut left = left;
    let mut right = right;
    // The merged nodes, smallest first: both inputs are taken from the back.
    let mut rev: Vec<ScanNode> = Vec::new();
    while left.len() > 0 || right.len() > 0
        invariant
            left@.len() <= l0.len(),
            right@.len() <= r0.len(),
            node_views(left@) == l0.take(left@.len() as int),
            node_views(right@) == r0.take(right@.len() as int),
            descending(l0),
            descending(r0),
            descending(reversed_views(rev@)),
            dominates(node_views(left@), reversed_views(rev@)),
            dominates(node_views(right@), reversed_views(rev@)),
            strictly_below(l0.skip(left@.len() as int), node_views(right@)),
            forall|size: u64| #[trigger]
                of_size(reversed_views(rev@), size) == of_size(
                    l0.skip(left@.len() as int),
                    size,
                ) + of_size(r0.skip(right@.len() as int), size),
        decreases left@.len() + right@.len(),
    {
        let ghost l = node_views(left@);
        let ghost r = node_views(right@);
        let ghost acc = reversed_views(rev@);
        let ghost nl = left@.len() as int;
        let ghost nr = right@.len() as int;
        let from_left = if right.len() == 0 {
            true
        } else if left.len() == 0 {
            false
        } else {
            left[left.len() - 1].size < right[right.len() - 1].size
        };
        if from_left {
            let node = left.pop().unwrap();
            rev.push(node);
            proof {
                let x = node@;
                let acc2 = reversed_views(rev@);
                assert(acc2 =~= seq![x] + acc);
                assert(node_views(left@) =~= l0.take(nl - 1));
                assert(l0.skip(nl - 1) =~= seq![x] + l0.skip(nl));
                assert(nr > 0 ==> x.size < r[nr - 1].size);
                assert forall|size: u64| #[trigger]
                    of_size(acc2, size) == of_size(l0.skip(nl - 1), size) + of_size(
                        r0.skip(nr),
                        size,
                    ) by {
                    lemma_of_size_add(seq![x], acc, size);
                    lemma_of_size_add(seq![x], l0.skip(nl), size);
                }
            }
        } else {
            let node = right.pop().unwrap();
            rev.push(node);
            proof {
                let x = node@;
                let acc2 = reversed_views(rev@);
                assert(acc2 =~= seq![x] + acc);
                assert(node_views(right@) =~= r0.take(nr - 1));
                assert(r0.skip(nr - 1) =~= seq![x] + r0.skip(nr));
                assert(nl > 0 ==> l[nl - 1].size >= x.size);
                assert forall|size: u64| #[trigger]
                    of_size(acc2, size) == of_size(l0.skip(nl), size) + of_size(
                        r0.skip(nr - 1),
                        size,
                    ) by {
                    lemma_of_size_add(seq![x], acc, size);
                    lemma_of_size_add(seq![x], r0.skip(nr), size);
                    lemma_of_size_single(x, size);
                    if x.size == size {
                        lemma_of_size_none(l0.skip(nl), size);
                    }
                }
            }
        }
    }
    let ghost target = reversed_views(rev@);
    proof {
        assert(l0.skip(0) =~= l0);
        assert(r0.skip(0) =~= r0);
    }
    let mut merged: Vec<ScanNode> = Vec::new();
    while rev.len() > 0
        invariant
            node_views(merged@) + reversed_views(rev@) == target,
        decreases rev@.len(),
    {
        let node = rev.pop().unwrap();
        merged.push(node);
    }
    merged
}

/// Sorts `nodes` by non-increasing size. The sort is stable: nodes of one
/// size keep the order in which they were handed in.
pub fn rank_by_size(nodes: Vec<ScanNode>) -> (ranked: Vec<ScanNode>)
    ensures
        node_views(ranked@) == ranked_by_size(node_views(nodes@)),
    decreases nodes@.len(),
{
    let ghost all = node_views(nodes@);
    if nodes.len() <= 1 {
        proof {
            if all.len() == 1 {
                assert(ranked_by_size(all.drop_last()) =~= Seq::<NodeView>::empty());
            }
        }
        return nodes;
    }
    let mut left = nodes;
    let middle = left.len() / 2;
    let right = left.split_off(middle);
    let ghost a = node_views(left@);
    let ghost b = node_views(right@);
    let left = rank_by_size(left);
    let right = rank_by_size(right);
    proof {
        lemma_ranked_by_size(a);
        lemma_ranked_by_size(b);
    }
    let merged = merge_ranked(left, right);
    proof {
        let m = node_views(merged@);
        assert(all =~= a + b);
        lemma_ranked_by_size(all);
        lemma_ranking_unique(m, ranked_by_size(all));
    }
    merged
}

} // verus!
