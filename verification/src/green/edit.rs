//! What an edit does to a green tree.
//!
//! An edit puts a new child in place of one child of one node. Green nodes
//! never change, so the node is built anew, and so is every node above it up
//! to the root: the path from the root to the edit is copied, and everything
//! beside the path is shared between the old tree and the new one.

use vstd::prelude::*;
use crate::green::{element_len, element_text, GreenElement, GreenNode, GreenToken};
use crate::text::{concat, lemma_byte_len_concat, lemma_concat_split};
use crate::NodeOrToken;

verus! {

/// Whether following `path` down from `root`, one child index at a time,
/// ends at `target`.
pub open spec fn reaches(root: GreenNode, path: Seq<int>, target: GreenNode) -> bool
    decreases path.len(),
{
    if path.len() == 0 {
        root == target
    } else {
        let i = path[0];
        &&& 0 <= i < root@.spec_children().len()
        &&& root@.spec_children()[i] is Node
        &&& reaches(root@.spec_children()[i]->Node_0, path.drop_first(), target)
    }
}

/// Whether `new` is `old` after one edit: the node at the end of `path` has
/// `new_child` in place of its child at `idx`.
///
/// Every node on the path is built anew, with the kind it had and a length
/// that is right. Every other child of a node on the path is the child that
/// was there before, taken over as it is.
pub open spec fn edited(
    old: GreenNode,
    new: GreenNode,
    path: Seq<int>,
    idx: int,
    new_child: GreenElement,
) -> bool
    decreases path.len(),
{
    &&& new@.spec_kind() == old@.spec_kind()
    &&& new@.wf()
    &&& if path.len() == 0 {
        &&& 0 <= idx < old@.spec_children().len()
        &&& new@.spec_children() == old@.spec_children().update(idx, new_child)
    } else {
        let i = path[0];
        &&& 0 <= i < old@.spec_children().len()
        &&& old@.spec_children()[i] is Node
        &&& new@.spec_children().len() == old@.spec_children().len()
        &&& new@.spec_children()[i] is Node
        &&& new@.spec_children() == old@.spec_children().update(i, new@.spec_children()[i])
        &&& edited(
            old@.spec_children()[i]->Node_0,
            new@.spec_children()[i]->Node_0,
            path.drop_first(),
            idx,
            new_child,
        )
    }
}

/// The node at the end of `path`, followed down from `root` one child index
/// at a time. Where the path leaves the tree, no particular node.
pub open spec fn node_at(root: GreenNode, path: Seq<int>) -> GreenNode
    decreases path.len(),
{
    if path.len() == 0 {
        root
    } else {
        node_at(root@.spec_children()[path[0]]->Node_0, path.drop_first())
    }
}

/// The text of the tree under `root` that comes before the child at `idx` of
/// the node at the end of `path`.
pub open spec fn text_before(root: GreenNode, path: Seq<int>, idx: int) -> Seq<char>
    decreases path.len(),
{
    if path.len() == 0 {
        concat(root@.child_texts().take(idx))
    } else {
        concat(root@.child_texts().take(path[0])) + text_before(
            root@.spec_children()[path[0]]->Node_0,
            path.drop_first(),
            idx,
        )
    }
}

/// The text of the tree under `root` that comes after the child at `idx` of
/// the node at the end of `path`.
pub open spec fn text_after(root: GreenNode, path: Seq<int>, idx: int) -> Seq<char>
    decreases path.len(),
{
    if path.len() == 0 {
        concat(root@.child_texts().skip(idx + 1))
    } else {
        text_after(root@.spec_children()[path[0]]->Node_0, path.drop_first(), idx) + concat(
            root@.child_texts().skip(path[0] + 1),
        )
    }
}

/// A path that ends at a node ends at that node and no other.
pub proof fn lemma_reaches_node_at(root: GreenNode, path: Seq<int>, target: GreenNode)
    requires
        reaches(root, path, target),
    ensures
        node_at(root, path) == target,
    decreases path.len(),
{
    if path.len() > 0 {
        lemma_reaches_node_at(root@.spec_children()[path[0]]->Node_0, path.drop_first(), target);
    }
}

/// A path that ends at a node goes on to each child of it that is a node.
pub proof fn lemma_reaches_push(
    root: GreenNode,
    path: Seq<int>,
    mid: GreenNode,
    i: int,
    target: GreenNode,
)
    requires
        reaches(root, path, mid),
        0 <= i < mid@.spec_children().len(),
        mid@.spec_children()[i] == NodeOrToken::<GreenNode, GreenToken>::Node(target),
    ensures
        reaches(root, path.push(i), target),
    decreases path.len(),
{
    if path.len() == 0 {
        assert(path.push(i).drop_first() == Seq::<int>::empty());
        assert(reaches(target, path.push(i).drop_first(), target));
    } else {
        lemma_reaches_push(
            root@.spec_children()[path[0]]->Node_0,
            path.drop_first(),
            mid,
            i,
            target,
        );
        assert(path.push(i).drop_first() == path.drop_first().push(i));
    }
}

/// Putting a rebuilt node in place of the child at `i` of the node at the
/// end of `path` is an edit one level further down, at `path` and then `i`.
pub proof fn lemma_edited_push(
    old: GreenNode,
    new: GreenNode,
    path: Seq<int>,
    mid: GreenNode,
    i: int,
    was: GreenNode,
    now: GreenNode,
    idx: int,
    new_child: GreenElement,
)
    requires
        reaches(old, path, mid),
        0 <= i < mid@.spec_children().len(),
        mid@.spec_children()[i] == NodeOrToken::<GreenNode, GreenToken>::Node(was),
        edited(old, new, path, i, NodeOrToken::Node(now)),
        edited(was, now, Seq::empty(), idx, new_child),
    ensures
        edited(old, new, path.push(i), idx, new_child),
    decreases path.len(),
{
    if path.len() == 0 {
        assert(path.push(i).drop_first() == Seq::<int>::empty());
    } else {
        let j = path[0];
        lemma_edited_push(
            old@.spec_children()[j]->Node_0,
            new@.spec_children()[j]->Node_0,
            path.drop_first(),
            mid,
            i,
            was,
            now,
            idx,
            new_child,
        );
        assert(path.push(i).drop_first() == path.drop_first().push(i));
    }
}

/// The text before a child of a node is the text before the node and the
/// text of the children of the node that stand before the child.
pub proof fn lemma_text_before_push(root: GreenNode, path: Seq<int>, i: int, idx: int)
    ensures
        text_before(root, path.push(i), idx) == text_before(root, path, i) + concat(
            node_at(root, path.push(i))@.child_texts().take(idx),
        ),
    decreases path.len(),
{
    let longer = path.push(i);
    let child = root@.spec_children()[longer[0]]->Node_0;
    assert(node_at(root, longer) == node_at(child, longer.drop_first()));
    assert(text_before(root, longer, idx) == concat(root@.child_texts().take(longer[0]))
        + text_before(child, longer.drop_first(), idx));
    if path.len() == 0 {
        assert(longer.drop_first() == Seq::<int>::empty());
        assert(node_at(child, longer.drop_first()) == child);
    } else {
        assert(longer.drop_first() == path.drop_first().push(i));
        lemma_text_before_push(child, path.drop_first(), i, idx);
        let a = concat(root@.child_texts().take(path[0]));
        let b = text_before(child, path.drop_first(), i);
        let c = concat(node_at(root, longer)@.child_texts().take(idx));
        assert(a + (b + c) == (a + b) + c);
    }
}

/// The path of an edit can be followed in the old tree and in the new one.
pub proof fn lemma_edit_path(
    old: GreenNode,
    new: GreenNode,
    path: Seq<int>,
    idx: int,
    new_child: GreenElement,
)
    requires
        edited(old, new, path, idx, new_child),
    ensures
        reaches(old, path, node_at(old, path)),
        reaches(new, path, node_at(new, path)),
    decreases path.len(),
{
    if path.len() > 0 {
        let i = path[0];
        lemma_edit_path(
            old@.spec_children()[i]->Node_0,
            new@.spec_children()[i]->Node_0,
            path.drop_first(),
            idx,
            new_child,
        );
    }
}

/// After an edit, the node at the end of the path has the kind it had and
/// the children it had, but for the one that was replaced.
pub proof fn lemma_edit_target(
    old: GreenNode,
    new: GreenNode,
    path: Seq<int>,
    idx: int,
    new_child: GreenElement,
)
    requires
        edited(old, new, path, idx, new_child),
    ensures
        0 <= idx < node_at(old, path)@.spec_children().len(),
        node_at(new, path)@.spec_kind() == node_at(old, path)@.spec_kind(),
        node_at(new, path)@.spec_children() == node_at(old, path)@.spec_children().update(
            idx,
            new_child,
        ),
    decreases path.len(),
{
    if path.len() > 0 {
        let i = path[0];
        lemma_edit_target(
            old@.spec_children()[i]->Node_0,
            new@.spec_children()[i]->Node_0,
            path.drop_first(),
            idx,
            new_child,
        );
    }
}

/// After an edit, every subtree beside the path is shared: at each node on
/// the path, `k` steps down from the root, each child but the one through
/// which the path goes on (or, at the end of the path, the one that was
/// replaced) is the child that the old tree has there. The node itself has
/// the kind it had and as many children as it had.
pub proof fn lemma_edit_shares(
    old: GreenNode,
    new: GreenNode,
    path: Seq<int>,
    idx: int,
    new_child: GreenElement,
    k: int,
    j: int,
)
    requires
        edited(old, new, path, idx, new_child),
        0 <= k <= path.len(),
        0 <= j < node_at(old, path.take(k))@.spec_children().len(),
        j != (if k < path.len() {
            path[k]
        } else {
            idx
        }),
    ensures
        node_at(new, path.take(k))@.spec_kind() == node_at(old, path.take(k))@.spec_kind(),
        node_at(new, path.take(k))@.spec_children().len() == node_at(
            old,
            path.take(k),
        )@.spec_children().len(),
        node_at(new, path.take(k))@.spec_children()[j] == node_at(
            old,
            path.take(k),
        )@.spec_children()[j],
    decreases path.len(),
{
    if k > 0 {
        let i = path[0];
        assert(path.take(k)[0] == i);
        assert(path.take(k).drop_first() == path.drop_first().take(k - 1));
        lemma_edit_shares(
            old@.spec_children()[i]->Node_0,
            new@.spec_children()[i]->Node_0,
            path.drop_first(),
            idx,
            new_child,
            k - 1,
            j,
        );
    } else {
        assert(path.take(0) == Seq::<int>::empty());
    }
}

/// The text of a tree is the text before a child, the text of that child, and
/// the text after it.
pub proof fn lemma_text_around(root: GreenNode, path: Seq<int>, idx: int)
    requires
        reaches(root, path, node_at(root, path)),
        0 <= idx < node_at(root, path)@.spec_children().len(),
    ensures
        root@.spec_text() == text_before(root, path, idx) + element_text(
            node_at(root, path)@.spec_children()[idx],
        ) + text_after(root, path, idx),
    decreases path.len(),
{
    if path.len() == 0 {
        lemma_concat_split(root@.child_texts(), idx);
    } else {
        let i = path[0];
        let child = root@.spec_children()[i]->Node_0;
        lemma_text_around(child, path.drop_first(), idx);
        lemma_concat_split(root@.child_texts(), i);
        assert(root@.child_texts()[i] == child@.spec_text());
        let a = concat(root@.child_texts().take(i));
        let b = text_before(child, path.drop_first(), idx);
        let c = element_text(node_at(root, path)@.spec_children()[idx]);
        let d = text_after(child, path.drop_first(), idx);
        let e = concat(root@.child_texts().skip(i + 1));
        assert(a + (b + c + d) + e == (a + b) + c + (d + e));
    }
}

/// The text of an edited tree is the text of the old tree with the text of
/// the new child in place of the text of the child that was replaced.
pub proof fn lemma_edit_text(
    old: GreenNode,
    new: GreenNode,
    path: Seq<int>,
    idx: int,
    new_child: GreenElement,
)
    requires
        edited(old, new, path, idx, new_child),
    ensures
        new@.spec_text() == text_before(old, path, idx) + element_text(new_child) + text_after(
            old,
            path,
            idx,
        ),
    decreases path.len(),
{
    let was = old@.child_texts();
    let now = new@.child_texts();
    if path.len() == 0 {
        lemma_concat_split(now, idx);
        assert(now.take(idx) == was.take(idx));
        assert(now.skip(idx + 1) == was.skip(idx + 1));
    } else {
        let i = path[0];
        let old_child = old@.spec_children()[i]->Node_0;
        let new_child_node = new@.spec_children()[i]->Node_0;
        lemma_edit_text(old_child, new_child_node, path.drop_first(), idx, new_child);
        lemma_concat_split(now, i);
        assert(now.take(i) == was.take(i));
        assert(now.skip(i + 1) == was.skip(i + 1));
        assert(now[i] == new_child_node@.spec_text());
        let a = concat(was.take(i));
        let b = text_before(old_child, path.drop_first(), idx);
        let c = element_text(new_child);
        let d = text_after(old_child, path.drop_first(), idx);
        let e = concat(was.skip(i + 1));
        assert(a + (b + c + d) + e == (a + b) + c + (d + e));
    }
}

/// The length of an edited tree is the length of the old tree, less the
/// length of the child that was replaced, and the length of the new child.
pub proof fn lemma_edit_len(
    old: GreenNode,
    new: GreenNode,
    path: Seq<int>,
    idx: int,
    new_child: GreenElement,
)
    requires
        edited(old, new, path, idx, new_child),
    ensures
        new@.spec_text_len() + element_len(node_at(old, path)@.spec_children()[idx])
            == old@.spec_text_len() + element_len(new_child),
{
    lemma_edit_path(old, new, path, idx, new_child);
    lemma_edit_target(old, new, path, idx, new_child);
    lemma_edit_text(old, new, path, idx, new_child);
    lemma_text_around(old, path, idx);
    let a = text_before(old, path, idx);
    let d = text_after(old, path, idx);
    let was = element_text(node_at(old, path)@.spec_children()[idx]);
    let now = element_text(new_child);
    lemma_byte_len_concat(a, was);
    lemma_byte_len_concat(a + was, d);
    lemma_byte_len_concat(a, now);
    lemma_byte_len_concat(a + now, d);
}

} // verus!
