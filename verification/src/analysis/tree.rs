//! Navigation in a syntax tree given as its nodes in pre-order with depths.
//!
//! In pre-order the children of node `i` are the later nodes one level
//! deeper, up to the first node that is not deeper than `i`; its parent is
//! the last earlier node one level up.
use vstd::prelude::*;

use super::syntax::NodeShape;
use crate::text::str_eq;

verus! {

/// The depths of a pre-order walk: the root first, each node at most one
/// level below the one before it.
pub open spec fn pre_order(nodes: Seq<NodeShape>) -> bool {
    &&& nodes.len() >= 1
    &&& nodes[0].depth == 0
    &&& forall|i: int| 0 < i < nodes.len() ==> #[trigger] depth_step(nodes, i)
}

/// Node `i` is below the root and at most one level below node `i - 1`.
pub open spec fn depth_step(nodes: Seq<NodeShape>, i: int) -> bool {
    1 <= nodes[i].depth <= nodes[i - 1].depth + 1
}

/// The last node before `end` with depth `d`.
pub open spec fn last_with_depth(nodes: Seq<NodeShape>, end: int, d: int) -> Option<int>
    decreases end,
{
    if end <= 0 {
        None
    } else if nodes[end - 1].depth == d {
        Some(end - 1)
    } else {
        last_with_depth(nodes, end - 1, d)
    }
}

pub proof fn lemma_last_with_depth(nodes: Seq<NodeShape>, end: int, d: int)
    ensures
        last_with_depth(nodes, end, d) matches Some(j) ==> 0 <= j < end && nodes[j].depth == d
            && forall|k: int| j < k < end ==> nodes[k].depth != d,
        last_with_depth(nodes, end, d) is None ==> forall|k: int|
            0 <= k < end ==> nodes[k].depth != d,
    decreases end,
{
    if end > 0 && nodes[end - 1].depth != d {
        lemma_last_with_depth(nodes, end - 1, d);
    }
}

/// The parent of node `i`.
pub open spec fn parent_of(nodes: Seq<NodeShape>, i: int) -> Option<int> {
    last_with_depth(nodes, i, nodes[i].depth - 1)
}

/// Nodes filling the parent field `name`.
pub open spec fn has_field(name: Seq<char>) -> spec_fn(NodeShape) -> bool {
    |n: NodeShape| n.field matches Some(f) && f@ == name
}

/// Named nodes.
pub open spec fn is_named() -> spec_fn(NodeShape) -> bool {
    |n: NodeShape| n.named
}

/// The first child of node `i`, at index `k` or later, that satisfies `pred`.
pub open spec fn first_child_from(
    nodes: Seq<NodeShape>,
    i: int,
    k: int,
    pred: spec_fn(NodeShape) -> bool,
) -> Option<int>
    decreases nodes.len() - k,
{
    if k <= i || k >= nodes.len() || nodes[k].depth <= nodes[i].depth {
        None
    } else if nodes[k].depth - 1 == nodes[i].depth && pred(nodes[k]) {
        Some(k)
    } else {
        first_child_from(nodes, i, k + 1, pred)
    }
}

/// The first child of node `i` that satisfies `pred`.
pub open spec fn first_child(nodes: Seq<NodeShape>, i: int, pred: spec_fn(NodeShape) -> bool) -> Option<int> {
    first_child_from(nodes, i, i + 1, pred)
}

/// The children of node `i`, from index `k` on, that satisfy `pred`.
pub open spec fn children_from(
    nodes: Seq<NodeShape>,
    i: int,
    k: int,
    pred: spec_fn(NodeShape) -> bool,
) -> Seq<int>
    decreases nodes.len() - k,
{
    if k <= i || k >= nodes.len() || nodes[k].depth <= nodes[i].depth {
        seq![]
    } else if nodes[k].depth - 1 == nodes[i].depth && pred(nodes[k]) {
        seq![k] + children_from(nodes, i, k + 1, pred)
    } else {
        children_from(nodes, i, k + 1, pred)
    }
}

/// The last named node before index `j + 1` at the depth of node `i`, not
/// looking past its parent: `Node::prev_named_sibling` when `j == i - 1`.
pub open spec fn prev_named_from(nodes: Seq<NodeShape>, i: int, j: int) -> Option<int>
    decreases j + 1,
{
    if j < 0 || nodes[j].depth < nodes[i].depth {
        None
    } else if nodes[j].depth == nodes[i].depth && nodes[j].named {
        Some(j)
    } else {
        prev_named_from(nodes, i, j - 1)
    }
}

/// The named sibling just before node `i`.
pub open spec fn prev_named_sibling(nodes: Seq<NodeShape>, i: int) -> Option<int> {
    prev_named_from(nodes, i, i - 1)
}

pub open spec fn indices(v: Seq<usize>) -> Seq<int> {
    v.map_values(|x: usize| x as int)
}

/// The child of node `i` in the parent field `name` (`child_by_field_name`).
pub fn field_child(nodes: &Vec<NodeShape>, i: usize, name: &str) -> (r: Option<usize>)
    requires
        i < nodes@.len(),
    ensures
        match r {
            Some(k) => first_child(nodes@, i as int, has_field(name@)) == Some(k as int) && i < k
                < nodes@.len(),
            None => first_child(nodes@, i as int, has_field(name@)) is None,
        },
{
    let n = nodes.len();
    let mut k = i + 1;
    while k < nodes.len() && nodes[k].depth > nodes[i].depth
        invariant
            i < k <= nodes@.len(),
            first_child(nodes@, i as int, has_field(name@)) == first_child_from(
                nodes@,
                i as int,
                k as int,
                has_field(name@),
            ),
        decreases nodes.len() - k,
    {
        if nodes[k].depth - 1 == nodes[i].depth {
            let hit = match &nodes[k].field {
                Some(f) => str_eq(f, name),
                None => false,
            };
            if hit {
                return Some(k);
            }
        }
        k = k + 1;
    }
    None
}

/// The first named child of node `i` (`named_child(0)`).
pub fn first_named_child(nodes: &Vec<NodeShape>, i: usize) -> (r: Option<usize>)
    requires
        i < nodes@.len(),
    ensures
        match r {
            Some(k) => first_child(nodes@, i as int, is_named()) == Some(k as int) && i < k
                < nodes@.len(),
            None => first_child(nodes@, i as int, is_named()) is None,
        },
{
    let n = nodes.len();
    let mut k = i + 1;
    while k < nodes.len() && nodes[k].depth > nodes[i].depth
        invariant
            i < k <= nodes@.len(),
            first_child(nodes@, i as int, is_named()) == first_child_from(
                nodes@,
                i as int,
                k as int,
                is_named(),
            ),
        decreases nodes.len() - k,
    {
        if nodes[k].depth - 1 == nodes[i].depth && nodes[k].named {
            return Some(k);
        }
        k = k + 1;
    }
    None
}

/// The named children of node `i`, in order (`named_children`).
pub fn named_children(nodes: &Vec<NodeShape>, i: usize) -> (r: Vec<usize>)
    requires
        i < nodes@.len(),
    ensures
        indices(r@) == children_from(nodes@, i as int, i + 1, is_named()),
        forall|t: int| 0 <= t < r@.len() ==> i < #[trigger] r@[t] < nodes@.len(),
{
    let mut out: Vec<usize> = Vec::new();
    let n = nodes.len();
    let mut k = i + 1;
    while k < nodes.len() && nodes[k].depth > nodes[i].depth
        invariant
            i < k <= nodes@.len(),
            children_from(nodes@, i as int, i + 1, is_named()) == indices(out@) + children_from(
                nodes@,
                i as int,
                k as int,
                is_named(),
            ),
            forall|t: int| 0 <= t < out@.len() ==> i < #[trigger] out@[t] < k,
        decreases nodes.len() - k,
    {
        if nodes[k].depth - 1 == nodes[i].depth && nodes[k].named {
            let ghost before = out@;
            out.push(k);
            assert(indices(out@) =~= indices(before) + seq![k as int]);
            assert(indices(before) + seq![k as int] + children_from(
                nodes@,
                i as int,
                k + 1,
                is_named(),
            ) =~= indices(before) + (seq![k as int] + children_from(
                nodes@,
                i as int,
                k + 1,
                is_named(),
            )));
        }
        k = k + 1;
    }
    assert(children_from(nodes@, i as int, k as int, is_named()) =~= seq![]);
    assert(indices(out@) + seq![] =~= indices(out@));
    out
}

/// The children of node `i` in the parent field `name`, in order
/// (`children_by_field_name`).
pub fn field_children(nodes: &Vec<NodeShape>, i: usize, name: &str) -> (r: Vec<usize>)
    requires
        i < nodes@.len(),
    ensures
        indices(r@) == children_from(nodes@, i as int, i + 1, has_field(name@)),
        forall|t: int| 0 <= t < r@.len() ==> i < #[trigger] r@[t] < nodes@.len(),
{
    let mut out: Vec<usize> = Vec::new();
    let n = nodes.len();
    let mut k = i + 1;
    while k < nodes.len() && nodes[k].depth > nodes[i].depth
        invariant
            i < k <= nodes@.len(),
            children_from(nodes@, i as int, i + 1, has_field(name@)) == indices(out@)
                + children_from(nodes@, i as int, k as int, has_field(name@)),
            forall|t: int| 0 <= t < out@.len() ==> i < #[trigger] out@[t] < k,
        decreases nodes.len() - k,
    {
        if nodes[k].depth - 1 == nodes[i].depth {
            let hit = match &nodes[k].field {
                Some(f) => str_eq(f, name),
                None => false,
            };
            if hit {
                let ghost before = out@;
                out.push(k);
                assert(indices(out@) =~= indices(before) + seq![k as int]);
                assert(indices(before) + seq![k as int] + children_from(
                    nodes@,
                    i as int,
                    k + 1,
                    has_field(name@),
                ) =~= indices(before) + (seq![k as int] + children_from(
                    nodes@,
                    i as int,
                    k + 1,
                    has_field(name@),
                )));
            }
        }
        k = k + 1;
    }
    assert(children_from(nodes@, i as int, k as int, has_field(name@)) =~= seq![]);
    assert(indices(out@) + seq![] =~= indices(out@));
    out
}

/// The named sibling just before node `i` (`prev_named_sibling`).
pub fn previous_named_sibling(nodes: &Vec<NodeShape>, i: usize) -> (r: Option<usize>)
    requires
        i < nodes@.len(),
    ensures
        match r {
            Some(k) => prev_named_sibling(nodes@, i as int) == Some(k as int) && k < i,
            None => prev_named_sibling(nodes@, i as int) is None,
        },
{
    let mut j = i;
    while j > 0 && nodes[j - 1].depth >= nodes[i].depth
        invariant
            j <= i < nodes@.len(),
            prev_named_sibling(nodes@, i as int) == prev_named_from(nodes@, i as int, j - 1),
        decreases j,
    {
        if nodes[j - 1].depth == nodes[i].depth && nodes[j - 1].named {
            return Some(j - 1);
        }
        j = j - 1;
    }
    None
}

} // verus!
