//! The tree that a scan produces.

use vstd::prelude::*;
use crate::path::{display_name, display_name_of};

verus! {

/// Whether an entry is a directory or anything else.
#[derive(Clone, Copy, Debug, PartialEq, Eq, Structural)]
pub enum NodeKind {
    File,
    Dir,
}

/// One entry of the scanned tree.
///
/// `children` is present on a directory that was expanded and absent on a
/// file and on a directory that the depth budget collapsed to its total.
/// `omitted_children` is present only where the width budget removed entries.
#[derive(Debug, PartialEq, Eq)]
pub struct ScanNode {
    pub name: String,
    pub path: String,
    pub kind: NodeKind,
    pub size: u64,
    pub children: Option<Vec<ScanNode>>,
    pub omitted_children: Option<u64>,
}

/// The mathematical value of a [`ScanNode`].
pub ghost struct NodeView {
    pub name: Seq<char>,
    pub path: Seq<char>,
    pub kind: NodeKind,
    pub size: u64,
    pub children: Option<Seq<NodeView>>,
    pub omitted_children: Option<u64>,
}

impl View for ScanNode {
    type V = NodeView;

    open spec fn view(&self) -> NodeView
        decreases self, 0nat,
    {
        NodeView {
            name: self.name@,
            path: self.path@,
            kind: self.kind,
            size: self.size,
            children: match self.children {
                Some(v) => Some(views_prefix(v, v@.len())),
                None => None,
            },
            omitted_children: self.omitted_children,
        }
    }
}

/// The values of the first `count` nodes of `nodes`.
pub open spec fn views_prefix(nodes: Vec<ScanNode>, count: nat) -> Seq<NodeView>
    decreases nodes, count,
{
    if count == 0 || count > nodes@.len() {
        Seq::empty()
    } else {
        views_prefix(nodes, (count - 1) as nat).push(nodes@[count - 1]@)
    }
}

/// The values of a sequence of nodes, one by one.
pub open spec fn node_views(nodes: Seq<ScanNode>) -> Seq<NodeView> {
    Seq::new(nodes.len(), |i: int| nodes[i]@)
}

/// The sum of the sizes of `nodes`.
pub open spec fn total_size(nodes: Seq<NodeView>) -> nat
    decreases nodes.len(),
{
    if nodes.len() == 0 {
        0
    } else {
        total_size(nodes.drop_last()) + nodes.last().size as nat
    }
}

/// `nodes` stand in order of non-increasing size.
pub open spec fn descending(nodes: Seq<NodeView>) -> bool {
    forall|i: int, j: int| 0 <= i <= j < nodes.len() ==> nodes[i].size >= nodes[j].size
}

/// A file of `size` bytes at `path`.
pub open spec fn file_view(path: Seq<char>, size: u64) -> NodeView {
    NodeView {
        name: display_name_of(path),
        path,
        kind: NodeKind::File,
        size,
        children: None,
        omitted_children: None,
    }
}

/// A directory at `path` that was not expanded: only the `size` of all that
/// lies beneath it is known.
pub open spec fn collapsed_view(path: Seq<char>, size: u64) -> NodeView {
    NodeView {
        name: display_name_of(path),
        path,
        kind: NodeKind::Dir,
        size,
        children: None,
        omitted_children: None,
    }
}

/// A directory at `path` with the given retained `children`, and `omitted`
/// more that the width budget removed.
pub open spec fn dir_view(
    path: Seq<char>,
    size: u64,
    children: Seq<NodeView>,
    omitted: Option<u64>,
) -> NodeView {
    NodeView {
        name: display_name_of(path),
        path,
        kind: NodeKind::Dir,
        size,
        children: Some(children),
        omitted_children: omitted,
    }
}

/// What stands in the tree for an entry that could not be scanned: an
/// expanded directory of `size` bytes without children.
pub open spec fn placeholder_view(path: Seq<char>, size: u64) -> NodeView {
    dir_view(path, size, Seq::empty(), None)
}

impl NodeView {
    /// No entry was removed from this node's children, nor from those of any
    /// node beneath it.
    pub open spec fn untruncated(self) -> bool
        decreases self,
    {
        &&& self.omitted_children is None
        &&& match self.children {
            Some(children) => forall|i: int|
                0 <= i < children.len() ==> (#[trigger] children[i]).untruncated(),
            None => true,
        }
    }

    /// The invariant of every tree that a scan assembles. A node is named
    /// after its path. A file has neither children nor an omitted count, and
    /// so has a collapsed directory. An expanded directory holds well-formed
    /// children in order of non-increasing size, weighs what they weigh
    /// together, and counts as omitted one entry at least, if any.
    pub open spec fn well_formed(self) -> bool
        decreases self,
    {
        &&& self.name == display_name_of(self.path)
        &&& match self.children {
            None => self.omitted_children is None,
            Some(children) => {
                &&& self.kind == NodeKind::Dir
                &&& descending(children)
                &&& self.size == total_size(children)
                &&& self.omitted_children matches Some(omitted) ==> omitted > 0
                &&& forall|i: int|
                    0 <= i < children.len() ==> (#[trigger] children[i]).well_formed()
            },
        }
    }

    /// The bytes measured at the leaves of this tree: the files, and the
    /// directories that were not expanded.
    pub open spec fn measured(self) -> nat
        decreases self, 0nat,
    {
        match self.children {
            None => self.size as nat,
            Some(children) => Self::measured_among(children, children.len()),
        }
    }

    /// The bytes measured at the leaves beneath the first `count` of `nodes`.
    pub open spec fn measured_among(nodes: Seq<NodeView>, count: nat) -> nat
        decreases nodes, count,
    {
        if count == 0 || count > nodes.len() {
            0
        } else {
            Self::measured_among(nodes, (count - 1) as nat) + nodes[count - 1].measured()
        }
    }
}

/// The first `count` values of a vector of nodes are the values of its first
/// `count` nodes.
proof fn lemma_views_prefix(nodes: Vec<ScanNode>, count: nat)
    requires
        count <= nodes@.len(),
    ensures
        views_prefix(nodes, count) == node_views(nodes@).take(count as int),
    decreases count,
{
    if count > 0 {
        lemma_views_prefix(nodes, (count - 1) as nat);
        assert(views_prefix(nodes, count).last() == nodes@[count - 1]@);
    }
}

/// The children of an expanded node, value by value.
pub proof fn lemma_children_views(node: ScanNode)
    ensures
        node@.children == match node.children {
            Some(v) => Some(node_views(v@)),
            None => None,
        },
{
    match node.children {
        Some(v) => {
            lemma_views_prefix(v, v@.len());
        },
        None => {},
    }
}

/// The total of a sequence grows by the size of what is pushed onto it.
pub proof fn lemma_total_size_push(nodes: Seq<NodeView>, node: NodeView)
    ensures
        total_size(nodes.push(node)) == total_size(nodes) + node.size,
{
    assert(nodes.push(node).drop_last() =~= nodes);
}

/// The total of two sequences joined is the sum of their totals.
pub proof fn lemma_total_size_add(a: Seq<NodeView>, b: Seq<NodeView>)
    ensures
        total_size(a + b) == total_size(a) + total_size(b),
    decreases b.len(),
{
    if b.len() > 0 {
        lemma_total_size_add(a, b.drop_last());
        assert((a + b).drop_last() =~= a + b.drop_last());
    }
}

/// A sequence weighs at least what each of its nodes weighs.
pub proof fn lemma_total_size_covers(nodes: Seq<NodeView>, i: int)
    requires
        0 <= i < nodes.len(),
    ensures
        total_size(nodes) >= nodes[i].size,
    decreases nodes.len(),
{
    if i < nodes.len() - 1 {
        lemma_total_size_covers(nodes.drop_last(), i);
    }
}

/// A part of a sequence weighs no more than the whole.
pub proof fn lemma_total_size_take(nodes: Seq<NodeView>, count: int)
    requires
        0 <= count <= nodes.len(),
    ensures
        total_size(nodes.take(count)) <= total_size(nodes),
{
    lemma_total_size_add(nodes.take(count), nodes.skip(count));
    assert(nodes.take(count) + nodes.skip(count) =~= nodes);
}

/// A well-formed node weighs exactly what was measured at the leaves that it
/// holds.
pub proof fn lemma_size_is_measured(node: NodeView)
    requires
        node.well_formed(),
    ensures
        node.size == node.measured(),
    decreases node,
{
    match node.children {
        None => {},
        Some(children) => {
            lemma_total_is_measured(children, children.len());
            assert(children.take(children.len() as int) =~= children);
        },
    }
}

/// Where nothing was omitted from a scanned directory nor from any directory
/// beneath it, the leaves that it holds are all the entries that were
/// measured in its subtree, and its size is the sum of theirs: the recursive
/// sum of the lengths of all the files in it.
pub proof fn lemma_untruncated_size(node: NodeView)
    requires
        node.well_formed(),
        node.untruncated(),
    ensures
        node.size == node.measured(),
{
    lemma_size_is_measured(node);
}

/// The first `count` of well-formed `nodes` weigh together what was measured
/// at the leaves beneath them.
proof fn lemma_total_is_measured(nodes: Seq<NodeView>, count: nat)
    requires
        count <= nodes.len(),
        forall|i: int| 0 <= i < nodes.len() ==> (#[trigger] nodes[i]).well_formed(),
    ensures
        total_size(nodes.take(count as int)) == NodeView::measured_among(nodes, count),
    decreases nodes, count,
{
    if count > 0 {
        lemma_total_is_measured(nodes, (count - 1) as nat);
        lemma_size_is_measured(nodes[count - 1]);
        assert(nodes.take(count as int).drop_last() =~= nodes.take(count - 1));
    }
}

impl Clone for ScanNode {
    /// A deep copy.
    fn clone(&self) -> (copy: ScanNode)
        ensures
            copy@ == self@,
        decreases self,
    {
        let children = match &self.children {
            Some(v) => Some(clone_nodes(v)),
            None => None,
        };
        let copy = ScanNode {
            name: self.name.clone(),
            path: self.path.clone(),
            kind: self.kind,
            size: self.size,
            children,
            omitted_children: self.omitted_children,
        };
        proof {
            lemma_children_views(copy);
            lemma_children_views(*self);
        }
        copy
    }
}

/// A deep copy of each of `nodes`, in order.
pub fn clone_nodes(nodes: &Vec<ScanNode>) -> (copies: Vec<ScanNode>)
    ensures
        node_views(copies@) == node_views(nodes@),
    decreases nodes,
{
    let mut copies: Vec<ScanNode> = Vec::new();
    let mut i: usize = 0;
    while i < nodes.len()
        invariant
            i <= nodes.len(),
            copies@.len() == i,
            forall|j: int| 0 <= j < i ==> copies@[j]@ == nodes@[j]@,
        decreases nodes.len() - i,
    {
        proof {
            broadcast use vstd::std_specs::vec::axiom_vec_index_decreases;
        }
        let child = nodes[i].clone();
        copies.push(child);
        i = i + 1;
    }
    copies
}

impl ScanNode {
    /// A file of `size` bytes at `path`.
    pub fn file(path: &str, size: u64) -> (node: ScanNode)
        ensures
            node@ == file_view(path@, size),
            node@.well_formed(),
    {
        ScanNode {
            name: display_name(path),
            path: path.to_owned(),
            kind: NodeKind::File,
            size,
            children: None,
            omitted_children: None,
        }
    }

    /// A directory at `path` that the depth budget keeps closed, with the
    /// `size` of all that lies beneath it.
    pub fn collapsed(path: &str, size: u64) -> (node: ScanNode)
        ensures
            node@ == collapsed_view(path@, size),
            node@.well_formed(),
    {
        ScanNode {
            name: display_name(path),
            path: path.to_owned(),
            kind: NodeKind::Dir,
            size,
            children: None,
            omitted_children: None,
        }
    }

    /// The stand-in for an entry at `path` that could not be scanned: an
    /// expanded directory of `size` bytes without children.
    pub fn placeholder(path: &str, size: u64) -> (node: ScanNode)
        ensures
            node@ == placeholder_view(path@, size),
            size == 0 ==> node@.well_formed(),
    {
        let node = ScanNode {
            name: display_name(path),
            path: path.to_owned(),
            kind: NodeKind::Dir,
            size,
            children: Some(Vec::new()),
            omitted_children: None,
        };
        proof {
            lemma_children_views(node);
        }
        node
    }
}

} // verus!
