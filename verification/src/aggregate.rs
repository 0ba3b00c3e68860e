//! How a directory is made of its scanned children: ranked by size, trimmed
//! to the width budget, and weighed by what is kept.

use vstd::prelude::*;
use crate::node::{
    descending, dir_view, lemma_children_views, lemma_total_size_add, lemma_total_size_covers,
    lemma_total_size_push, lemma_total_size_take, node_views, total_size, NodeKind, NodeView,
    ScanNode,
};
use crate::path::display_name;
use crate::ranking::{
    dominates, has_size, lemma_of_size_within, lemma_ranked_by_size, of_size, rank_by_size,
    ranked_by_size,
};

verus! {

/// A directory of `count` children keeps them all under a width budget of
/// `top_children`: the budget is unlimited (0), or no smaller than `count`.
pub open spec fn keeps_all(count: nat, top_children: u32) -> bool {
    top_children == 0 || count <= top_children
}

/// The first of the `ranked` children that the width budget keeps.
pub open spec fn retained(ranked: Seq<NodeView>, top_children: u32) -> Seq<NodeView> {
    if keeps_all(ranked.len(), top_children) {
        ranked
    } else {
        ranked.take(top_children as int)
    }
}

/// The `ranked` children that the width budget removes.
pub open spec fn removed(ranked: Seq<NodeView>, top_children: u32) -> Seq<NodeView> {
    if keeps_all(ranked.len(), top_children) {
        Seq::empty()
    } else {
        ranked.skip(top_children as int)
    }
}

/// The count of omitted children that a directory of `count` children
/// reports: none where all are kept.
pub open spec fn omitted(count: nat, top_children: u32) -> Option<u64> {
    if keeps_all(count, top_children) {
        None
    } else {
        Some((count - top_children) as u64)
    }
}

/// The children that a directory keeps of those that were scanned: the
/// largest, in order of non-increasing size.
pub open spec fn kept_children(children: Seq<NodeView>, top_children: u32) -> Seq<NodeView> {
    retained(ranked_by_size(children), top_children)
}

/// The directory at `path` whose scanned children are `children`, where the
/// sizes of those it keeps add up to no more than `u64::MAX`.
pub open spec fn assembled(path: Seq<char>, children: Seq<NodeView>, top_children: u32) -> NodeView {
    dir_view(
        path,
        total_size(kept_children(children, top_children)) as u64,
        kept_children(children, top_children),
        omitted(children.len(), top_children),
    )
}

/// The sum of the sizes of `nodes`, where a `u64` holds it.
pub fn checked_total(nodes: &Vec<ScanNode>) -> (total: Option<u64>)
    ensures
        match total {
            Some(t) => t == total_size(node_views(nodes@)),
            None => total_size(node_views(nodes@)) > u64::MAX,
        },
{
    let ghost views = node_views(nodes@);
    let mut total: u64 = 0;
    let mut i: usize = 0;
    while i < nodes.len()
        invariant
            i <= nodes.len(),
            views == node_views(nodes@),
            total == total_size(views.take(i as int)),
        decreases nodes.len() - i,
    {
        proof {
            assert(views.take(i + 1) =~= views.take(i as int).push(views[i as int]));
            lemma_total_size_push(views.take(i as int), views[i as int]);
            lemma_total_size_take(views, i + 1);
        }
        match total.checked_add(nodes[i].size) {
            Some(sum) => {
                total = sum;
            },
            None => {
                return None;
            },
        }
        i = i + 1;
    }
    assert(views.take(nodes.len() as int) =~= views);
    Some(total)
}

/// Makes the directory at `path` of its scanned `children`, handed in in the
/// order in which they were scanned.
///
/// The children are ranked by non-increasing size, children of one size in
/// the order in which they came. Where `top_children` is not 0 and there are
/// more children than that, only the first `top_children` are kept and the
/// rest are counted as omitted. The directory weighs what the kept children
/// weigh together. `None` comes back if and only if that sum is beyond
/// `u64::MAX`.
pub fn assemble_dir(path: &str, children: Vec<ScanNode>, top_children: u32) -> (node: Option<
    ScanNode,
>)
    ensures
        match node {
            Some(n) => {
                &&& total_size(kept_children(node_views(children@), top_children)) <= u64::MAX
                &&& n@ == assembled(path@, node_views(children@), top_children)
                &&& n@.children is Some
                &&& descending(n@.children->0)
                &&& keeps_all(children@.len(), top_children) ==> {
                    &&& n@.omitted_children is None
                    &&& n@.children->0.len() == children@.len()
                    &&& n@.size == total_size(node_views(children@))
                }
                &&& !keeps_all(children@.len(), top_children) ==> {
                    &&& n@.omitted_children == Some((children@.len() - top_children) as u64)
                    &&& n@.children->0.len() == top_children
                    &&& n@.size == total_size(
                        ranked_by_size(node_views(children@)).take(top_children as int),
                    )
                }
            },
            None => total_size(kept_children(node_views(children@), top_children)) > u64::MAX,
        },
{
    let ghost scanned = node_views(children@);
    let count = children.len();
    let mut kept = rank_by_size(children);
    proof {
        lemma_ranked_by_size(scanned);
    }
    let mut omitted_children: Option<u64> = None;
    if top_children > 0 && count > top_children as usize {
        omitted_children = Some((count - top_children as usize) as u64);
        kept.truncate(top_children as usize);
        assert(node_views(kept@) =~= ranked_by_size(scanned).take(top_children as int));
    }
    match checked_total(&kept) {
        Some(size) => {
            let node = ScanNode {
                name: display_name(path),
                path: path.to_owned(),
                kind: NodeKind::Dir,
                size,
                children: Some(kept),
                omitted_children,
            };
            proof {
                lemma_children_views(node);
            }
            Some(node)
        },
        None => None,
    }
}

/// A directory that keeps all its children weighs what they weigh together,
/// in whatever order they were scanned.
pub proof fn lemma_untruncated_dir(path: Seq<char>, children: Seq<NodeView>, top_children: u32)
    requires
        keeps_all(children.len(), top_children),
    ensures
        assembled(path, children, top_children).omitted_children is None,
        assembled(path, children, top_children).children == Some(ranked_by_size(children)),
        total_size(kept_children(children, top_children)) == total_size(children),
{
    lemma_ranked_by_size(children);
}

/// A directory that the width budget trims counts as omitted exactly the
/// children it lost and keeps the largest: no child that it lost is larger
/// than one that it kept. What it kept and what it lost weigh together what
/// all its children weigh, so the directory weighs less than they do as soon
/// as one of the lost children is not empty.
pub proof fn lemma_truncated_dir(path: Seq<char>, children: Seq<NodeView>, top_children: u32)
    requires
        !keeps_all(children.len(), top_children),
    ensures
        assembled(path, children, top_children).omitted_children == Some(
            (children.len() - top_children) as u64,
        ),
        kept_children(children, top_children) == ranked_by_size(children).take(
            top_children as int,
        ),
        kept_children(children, top_children).len() == top_children,
        removed(ranked_by_size(children), top_children).len() == children.len() - top_children,
        dominates(
            kept_children(children, top_children),
            removed(ranked_by_size(children), top_children),
        ),
        total_size(kept_children(children, top_children)) + total_size(
            removed(ranked_by_size(children), top_children),
        ) == total_size(children),
{
    let ranked = ranked_by_size(children);
    lemma_ranked_by_size(children);
    let kept = ranked.take(top_children as int);
    let lost = ranked.skip(top_children as int);
    lemma_total_size_add(kept, lost);
    assert(kept + lost =~= ranked);
}

/// A directory that lost a child that is not empty weighs less than its
/// children do together.
pub proof fn lemma_truncation_undercounts(
    path: Seq<char>,
    children: Seq<NodeView>,
    top_children: u32,
    lost: int,
)
    requires
        !keeps_all(children.len(), top_children),
        total_size(kept_children(children, top_children)) <= u64::MAX,
        0 <= lost < removed(ranked_by_size(children), top_children).len(),
        removed(ranked_by_size(children), top_children)[lost].size > 0,
    ensures
        assembled(path, children, top_children).size < total_size(children),
{
    lemma_truncated_dir(path, children, top_children);
    lemma_total_size_covers(removed(ranked_by_size(children), top_children), lost);
}

/// The children of an assembled directory stand in order of non-increasing
/// size.
pub proof fn lemma_assembled_descending(path: Seq<char>, children: Seq<NodeView>, top_children: u32)
    ensures
        descending(kept_children(children, top_children)),
        assembled(path, children, top_children).children == Some(
            kept_children(children, top_children),
        ),
{
    lemma_ranked_by_size(children);
}

/// A directory assembled of well-formed children is well-formed, where the
/// sizes of those it keeps add up to no more than `u64::MAX`. (The children
/// are as many as a vector holds.)
pub proof fn lemma_assembled_well_formed(
    path: Seq<char>,
    children: Seq<NodeView>,
    top_children: u32,
)
    requires
        children.len() <= usize::MAX,
        forall|i: int| 0 <= i < children.len() ==> (#[trigger] children[i]).well_formed(),
        total_size(kept_children(children, top_children)) <= u64::MAX,
    ensures
        assembled(path, children, top_children).well_formed(),
{
    lemma_ranked_by_size(children);
    lemma_ranked_members(children);
}

/// Every node of a ranking is a node of the sequence that was ranked.
proof fn lemma_ranked_members(nodes: Seq<NodeView>)
    ensures
        forall|i: int|
            0 <= i < ranked_by_size(nodes).len() ==> nodes.contains(
                #[trigger] ranked_by_size(nodes)[i],
            ),
{
    let ranked = ranked_by_size(nodes);
    lemma_ranked_by_size(nodes);
    assert forall|i: int| 0 <= i < ranked.len() implies nodes.contains(#[trigger] ranked[i]) by {
        let size = ranked[i].size;
        let found = of_size(ranked, size);
        ranked.lemma_filter_contains(has_size(size), i);
        let k = choose|k: int| 0 <= k < found.len() && found[k] == ranked[i];
        lemma_of_size_within(nodes, size, k);
    }
}

} // verus!
