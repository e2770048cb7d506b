//! The red tree: a view over a green tree that knows where it is.
//!
//! A red node wraps a green node and adds its parent, its place among the
//! parent's children and the offset of its text from the start of the tree.
//! Red nodes are made on the way down from a root and are never stored in the
//! tree; editing through one builds a new green tree and hands back its root.

use vstd::prelude::*;
use std::rc::Rc;
use crate::green::token::GreenToken;
use crate::arc::Arc;
use crate::green::edit::{
    edited, lemma_edit_text, lemma_edited_push, lemma_reaches_node_at, lemma_reaches_push,
    lemma_text_around, lemma_text_before_push, reaches, text_after, text_before,
};
use crate::green::{
    element_kind, element_len, element_lens, element_text, GreenElement, GreenNode, GreenNodeData,
};
use crate::text::{
    byte_len, byte_lens, concat, lemma_byte_len_concat, lemma_byte_len_of_concat, lemma_sum_prefix,
    lemma_sum_step, sum,
};
use crate::{NodeOrToken, SyntaxKind};

verus! {

/// Handle to a red node.
pub type RedNode = Rc<RedNodeData>;

/// Handle to a red token.
pub type RedToken = Rc<RedTokenData>;

/// A child of a red node.
pub type RedElement = NodeOrToken<RedNode, RedToken>;

/// `Rc::clone`: another handle to the same value.
#[verifier::external_body]
fn rc_clone<T>(p: &Rc<T>) -> (r: Rc<T>)
    ensures
        r == p,
{
    Rc::clone(p)
}

/// A green node seen at a place in a tree.
pub struct RedNodeData {
    parent: Option<RedNode>,
    index_in_parent: usize,
    text_offset: usize,
    green: GreenNode,
}

/// A green token seen at a place in a tree.
pub struct RedTokenData {
    parent: Option<RedNode>,
    index_in_parent: usize,
    text_offset: usize,
    green: GreenToken,
}

/// Where the child at `index` of a node starts, if the node starts at
/// `offset`: after the text of the children before it.
pub open spec fn child_offset(offset: nat, children: Seq<GreenElement>, index: int) -> nat {
    offset + sum(element_lens(children).take(index))
}

/// All the text of the tree that comes before the child at `index` of
/// `parent`; nothing where there is no parent.
pub open spec fn preceding_text(parent: Option<RedNode>, index: nat) -> Seq<char> {
    match parent {
        Some(p) => text_before(p.root_green(), p.path(), index as int),
        None => Seq::empty(),
    }
}

/// All the text of the tree that comes after the child at `index` of
/// `parent`; nothing where there is no parent.
pub open spec fn following_text(parent: Option<RedNode>, index: nat) -> Seq<char> {
    match parent {
        Some(p) => text_after(p.root_green(), p.path(), index as int),
        None => Seq::empty(),
    }
}

/// The text of a tree is the text before a child of one of its nodes, the
/// text of that child, and the text after it.
pub proof fn lemma_text_around_child(parent: RedNode, index: int)
    requires
        parent.wf(),
        0 <= index < parent.spec_green()@.spec_children().len(),
    ensures
        parent.root_green()@.spec_text() == preceding_text(Some(parent), index as nat)
            + element_text(parent.spec_green()@.spec_children()[index]) + following_text(
            Some(parent),
            index as nat,
        ),
{
    parent.lemma_path();
    lemma_reaches_node_at(parent.root_green(), parent.path(), parent.spec_green());
    lemma_text_around(parent.root_green(), parent.path(), index);
}

impl RedNodeData {
    /// The parent, if this is not a root.
    pub closed spec fn spec_parent(&self) -> Option<RedNode> {
        self.parent
    }

    /// The place of this node among the children of its parent.
    pub closed spec fn spec_index(&self) -> nat {
        self.index_in_parent as nat
    }

    /// The offset of this node's text from the start of the tree.
    pub closed spec fn spec_offset(&self) -> nat {
        self.text_offset as nat
    }

    /// The green node that this node shows.
    pub closed spec fn spec_green(&self) -> GreenNode {
        self.green
    }

    /// All the text of the tree that comes before this node.
    pub open spec fn spec_text_before(&self) -> Seq<char> {
        preceding_text(self.spec_parent(), self.spec_index())
    }

    /// All the text of the tree that comes after this node.
    pub open spec fn spec_text_after(&self) -> Seq<char> {
        following_text(self.spec_parent(), self.spec_index())
    }

    /// The number of nodes above this one.
    pub open spec fn depth(&self) -> nat
        decreases self,
    {
        match self.spec_parent() {
            Some(p) => p.depth() + 1,
            None => 0,
        }
    }

    /// The green root of the tree that this node is in.
    pub open spec fn root_green(&self) -> GreenNode
        decreases self,
    {
        match self.spec_parent() {
            Some(p) => p.root_green(),
            None => self.spec_green(),
        }
    }

    /// The child indices that lead from the root down to this node.
    pub open spec fn path(&self) -> Seq<int>
        decreases self,
    {
        match self.spec_parent() {
            Some(p) => p.path().push(self.spec_index() as int),
            None => Seq::empty(),
        }
    }

    /// A root starts at zero; any other node is the child of its parent at
    /// its index and starts where that child starts; and so on up to the
    /// root.
    #[verifier::type_invariant]
    pub closed spec fn wf(&self) -> bool
        decreases self,
    {
        &&& self.green@.wf()
        &&& match self.parent {
            None => self.index_in_parent == 0 && self.text_offset == 0,
            Some(p) => {
                &&& p.wf()
                &&& self.index_in_parent < p.green@.spec_children().len()
                &&& p.green@.spec_children()[self.index_in_parent as int] == NodeOrToken::<
                    GreenNode,
                    GreenToken,
                >::Node(self.green)
                &&& self.text_offset == child_offset(
                    p.text_offset as nat,
                    p.green@.spec_children(),
                    self.index_in_parent as int,
                )
            },
        }
    }
}

impl RedTokenData {
    /// The node that this token is a child of.
    pub closed spec fn spec_parent(&self) -> Option<RedNode> {
        self.parent
    }

    /// The place of this token among the children of its parent.
    pub closed spec fn spec_index(&self) -> nat {
        self.index_in_parent as nat
    }

    /// The offset of this token's text from the start of the tree.
    pub closed spec fn spec_offset(&self) -> nat {
        self.text_offset as nat
    }

    /// The green token that this token shows.
    pub closed spec fn spec_green(&self) -> GreenToken {
        self.green
    }

    /// All the text of the tree that comes before this token.
    pub open spec fn spec_text_before(&self) -> Seq<char> {
        preceding_text(self.spec_parent(), self.spec_index())
    }

    /// The token is the child of its parent at its index and starts where
    /// that child starts.
    #[verifier::type_invariant]
    pub closed spec fn wf(&self) -> bool {
        match self.parent {
            None => self.index_in_parent == 0 && self.text_offset == 0,
            Some(p) => {
                &&& p.wf()
                &&& self.index_in_parent < p.green@.spec_children().len()
                &&& p.green@.spec_children()[self.index_in_parent as int] == NodeOrToken::<
                    GreenNode,
                    GreenToken,
                >::Token(self.green)
                &&& self.text_offset == child_offset(
                    p.text_offset as nat,
                    p.green@.spec_children(),
                    self.index_in_parent as int,
                )
            },
        }
    }

    /// The offset of a token is the offset of its parent and the lengths of
    /// the siblings before it.
    pub proof fn lemma_offset(&self)
        requires
            self.wf(),
        ensures
            match self.spec_parent() {
                None => self.spec_offset() == 0,
                Some(p) => {
                    &&& p.wf()
                    &&& self.spec_index() < p.spec_green()@.spec_children().len()
                    &&& p.spec_green()@.spec_children()[self.spec_index() as int]
                        == NodeOrToken::<GreenNode, GreenToken>::Token(self.spec_green())
                    &&& self.spec_offset() == child_offset(
                        p.spec_offset(),
                        p.spec_green()@.spec_children(),
                        self.spec_index() as int,
                    )
                },
            },
    {
    }

    /// The offset of a token is the length in bytes of all the text of the
    /// tree that comes before it.
    pub proof fn lemma_offset_is_text_before(&self)
        requires
            self.wf(),
        ensures
            self.spec_offset() == byte_len(self.spec_text_before()),
    {
        match self.parent {
            None => {},
            Some(p) => {
                p.lemma_child_offset_is_text_before(self.spec_index() as int);
            },
        }
    }

    /// The green token that the token shows.
    pub fn green(&self) -> (g: &GreenToken)
        ensures
            *g == self.spec_green(),
            self.wf(),
    {
        proof {
            use_type_invariant(self);
        }
        &self.green
    }

    /// Kind of the token.
    pub fn kind(&self) -> (k: SyntaxKind)
        ensures
            k == self.spec_green()@.spec_kind(),
    {
        self.green.kind()
    }

    /// Offset of the token's text from the start of the tree: the length in
    /// bytes of all the text before it.
    pub fn text_offset(&self) -> (n: usize)
        ensures
            n == self.spec_offset(),
            n == byte_len(self.spec_text_before()),
            self.wf(),
    {
        proof {
            use_type_invariant(self);
            self.lemma_offset_is_text_before();
        }
        self.text_offset
    }

    /// Length of the token's text in bytes.
    pub fn text_len(&self) -> (n: usize)
        ensures
            n == byte_len(self.spec_green()@.spec_text()),
    {
        self.green.text_len()
    }

    /// The node that this token is a child of.
    pub fn parent(&self) -> (p: Option<&RedNode>)
        ensures
            match p {
                Some(p) => self.spec_parent() == Some(*p),
                None => self.spec_parent().is_none(),
            },
    {
        self.parent.as_ref()
    }

    /// The text of the token.
    pub fn to_string(&self) -> (s: String)
        ensures
            s@ == self.spec_green()@.spec_text(),
    {
        self.green.to_string()
    }
}

/// The parent of a red element.
pub open spec fn red_parent(e: RedElement) -> Option<RedNode> {
    match e {
        NodeOrToken::Node(n) => n.spec_parent(),
        NodeOrToken::Token(t) => t.spec_parent(),
    }
}

/// The place of a red element among the children of its parent.
pub open spec fn red_index(e: RedElement) -> nat {
    match e {
        NodeOrToken::Node(n) => n.spec_index(),
        NodeOrToken::Token(t) => t.spec_index(),
    }
}

/// The offset of a red element's text from the start of the tree.
pub open spec fn red_offset(e: RedElement) -> nat {
    match e {
        NodeOrToken::Node(n) => n.spec_offset(),
        NodeOrToken::Token(t) => t.spec_offset(),
    }
}

/// All the text of the tree that comes before a red element.
pub open spec fn red_text_before(e: RedElement) -> Seq<char> {
    preceding_text(red_parent(e), red_index(e))
}

/// The green element that a red element shows.
pub open spec fn red_green(e: RedElement) -> GreenElement {
    match e {
        NodeOrToken::Node(n) => NodeOrToken::Node(n.spec_green()),
        NodeOrToken::Token(t) => NodeOrToken::Token(t.spec_green()),
    }
}

/// Whether a red element is well formed.
pub open spec fn red_wf(e: RedElement) -> bool {
    match e {
        NodeOrToken::Node(n) => n.wf(),
        NodeOrToken::Token(t) => t.wf(),
    }
}

impl RedNodeData {
    /// The text of a node ends where the text of the tree can still be
    /// counted: offset and length together fit in `usize`.
    pub proof fn lemma_extent(&self)
        requires
            self.wf(),
        ensures
            self.spec_offset() + self.spec_green()@.spec_text_len() <= usize::MAX,
        decreases self,
    {
        self.green@.lemma_wf();
        match self.parent {
            None => {},
            Some(p) => {
                p.lemma_extent();
                let lens = element_lens(p.green@.spec_children());
                let i = self.index_in_parent as int;
                p.green@.lemma_text_len_is_sum();
                lemma_sum_step(lens, i);
                lemma_sum_prefix(lens, i + 1);
            },
        }
    }

    /// The offset of a root is zero; the offset of any other node is the
    /// offset of its parent and the lengths of the siblings before it.
    pub proof fn lemma_offset(&self)
        requires
            self.wf(),
        ensures
            match self.spec_parent() {
                None => self.spec_offset() == 0,
                Some(p) => {
                    &&& p.wf()
                    &&& self.spec_index() < p.spec_green()@.spec_children().len()
                    &&& p.spec_green()@.spec_children()[self.spec_index() as int]
                        == NodeOrToken::<GreenNode, GreenToken>::Node(self.spec_green())
                    &&& self.spec_offset() == child_offset(
                        p.spec_offset(),
                        p.spec_green()@.spec_children(),
                        self.spec_index() as int,
                    )
                },
            },
    {
    }

    /// The offset of a node is the length in bytes of all the text of the
    /// tree that comes before it.
    pub proof fn lemma_offset_is_text_before(&self)
        requires
            self.wf(),
        ensures
            self.spec_offset() == byte_len(self.spec_text_before()),
    {
        match self.parent {
            None => {},
            Some(p) => {
                p.lemma_child_offset_is_text_before(self.spec_index() as int);
            },
        }
    }

    /// The text of the tree is the text before a node, the text of the node,
    /// and the text after it.
    pub proof fn lemma_text_in_tree(&self)
        requires
            self.wf(),
        ensures
            self.root_green()@.spec_text() == self.spec_text_before()
                + self.spec_green()@.spec_text() + self.spec_text_after(),
    {
        match self.parent {
            None => {},
            Some(p) => {
                lemma_text_around_child(p, self.spec_index() as int);
            },
        }
    }

    /// The path of a node leads from the root of its tree to its green node.
    pub proof fn lemma_path(&self)
        requires
            self.wf(),
        ensures
            reaches(self.root_green(), self.path(), self.spec_green()),
        decreases self,
    {
        match self.parent {
            None => {},
            Some(p) => {
                p.lemma_path();
                lemma_reaches_push(
                    p.root_green(),
                    p.path(),
                    p.spec_green(),
                    self.spec_index() as int,
                    self.spec_green(),
                );
            },
        }
    }

    /// A node is as many steps below the root as its path is long.
    pub proof fn lemma_path_len(&self)
        ensures
            self.path().len() == self.depth(),
        decreases self,
    {
        match self.spec_parent() {
            None => {},
            Some(p) => {
                p.lemma_path_len();
            },
        }
    }

    /// Offsets count text: the offset at which the child at `i` of a node
    /// starts is the length in bytes of all the text of the tree that comes
    /// before that child.
    pub proof fn lemma_child_offset_is_text_before(&self, i: int)
        requires
            self.wf(),
            0 <= i <= self.spec_green()@.spec_children().len(),
        ensures
            child_offset(self.spec_offset(), self.spec_green()@.spec_children(), i) == byte_len(
                text_before(self.root_green(), self.path(), i),
            ),
        decreases self,
    {
        let texts = self.green@.child_texts();
        let lens = element_lens(self.green@.spec_children());
        lemma_byte_len_of_concat(texts.take(i));
        assert(byte_lens(texts.take(i)) == lens.take(i));
        match self.parent {
            None => {},
            Some(p) => {
                let at = self.spec_index() as int;
                p.lemma_child_offset_is_text_before(at);
                self.lemma_path();
                lemma_reaches_node_at(self.root_green(), self.path(), self.spec_green());
                lemma_text_before_push(p.root_green(), p.path(), at, i);
                lemma_byte_len_concat(
                    text_before(p.root_green(), p.path(), at),
                    concat(texts.take(i)),
                );
            },
        }
    }

    /// No node has more text than the tree that it is in.
    pub proof fn lemma_within_root(&self)
        requires
            self.wf(),
        ensures
            self.spec_green()@.spec_text_len() <= self.root_green()@.spec_text_len(),
        decreases self,
    {
        match self.parent {
            None => {},
            Some(p) => {
                p.lemma_within_root();
                let lens = element_lens(p.green@.spec_children());
                let i = self.index_in_parent as int;
                p.green@.lemma_text_len_is_sum();
                lemma_sum_step(lens, i);
                lemma_sum_prefix(lens, i + 1);
            },
        }
    }

    /// A red view of a whole tree: the root, at offset zero.
    pub fn new_root(root: GreenNode) -> (r: RedNode)
        ensures
            r.spec_parent().is_none(),
            r.spec_index() == 0,
            r.spec_offset() == 0,
            r.spec_green() == root,
            r.wf(),
    {
        let green: &GreenNodeData = &root;
        proof {
            use_type_invariant(green);
        }
        Rc::new(RedNodeData { parent: None, index_in_parent: 0, text_offset: 0, green: root })
    }
}

impl RedNodeData {
    /// The green node that the node shows.
    pub fn green(&self) -> (g: &GreenNode)
        ensures
            *g == self.spec_green(),
            self.wf(),
    {
        proof {
            use_type_invariant(self);
        }
        &self.green
    }

    /// Kind of the node.
    pub fn kind(&self) -> (k: SyntaxKind)
        ensures
            k == self.spec_green()@.spec_kind(),
    {
        self.green().kind()
    }

    /// Offset of the node's text from the start of the tree: the length in
    /// bytes of all the text before it.
    pub fn text_offset(&self) -> (n: usize)
        ensures
            n == self.spec_offset(),
            n == byte_len(self.spec_text_before()),
            self.wf(),
    {
        proof {
            use_type_invariant(self);
            self.lemma_offset_is_text_before();
        }
        self.text_offset
    }

    /// Length in bytes of all the text below the node.
    pub fn text_len(&self) -> (n: usize)
        ensures
            n == self.spec_green()@.spec_text_len(),
    {
        self.green().text_len()
    }

    /// The parent, if the node is not a root.
    pub fn parent(&self) -> (p: Option<&RedNode>)
        ensures
            match p {
                Some(p) => self.spec_parent() == Some(*p),
                None => self.spec_parent().is_none(),
            },
    {
        self.parent.as_ref()
    }

    /// The children of the node, each with this node as its parent, its
    /// index, and the offset at which its text starts.
    ///
    /// Every call makes new red elements over the same green children.
    pub fn children(self: &RedNode) -> (r: Vec<RedElement>)
        ensures
            r@.len() == self.spec_green()@.spec_children().len(),
            forall|i: int|
                0 <= i < r@.len() ==> {
                    &&& red_parent(#[trigger] r@[i]) == Some(*self)
                    &&& red_index(r@[i]) == i
                    &&& red_green(r@[i]) == self.spec_green()@.spec_children()[i]
                    &&& red_offset(r@[i]) == child_offset(
                        self.spec_offset(),
                        self.spec_green()@.spec_children(),
                        i,
                    )
                    &&& red_wf(r@[i])
                },
    {
        let green_children = self.green().children();
        let ghost lens = element_lens(green_children@);
        proof {
            self.lemma_extent();
            self.spec_green()@.lemma_text_len_is_sum();
        }
        let mut r: Vec<RedElement> = Vec::new();
        let mut offset_in_parent: usize = 0;
        let mut idx: usize = 0;
        while idx < green_children.len()
            invariant
                idx <= green_children.len(),
                self.wf(),
                green_children@ == self.spec_green()@.spec_children(),
                lens == element_lens(green_children@),
                self.spec_offset() + sum(lens) <= usize::MAX,
                offset_in_parent == sum(lens.take(idx as int)),
                r@.len() == idx,
                forall|i: int|
                    0 <= i < idx ==> {
                        &&& red_parent(#[trigger] r@[i]) == Some(*self)
                        &&& red_index(r@[i]) == i
                        &&& red_green(r@[i]) == green_children@[i]
                        &&& red_offset(r@[i]) == child_offset(
                            self.spec_offset(),
                            green_children@,
                            i,
                        )
                        &&& red_wf(r@[i])
                    },
            decreases green_children.len() - idx,
        {
            proof {
                lemma_sum_step(lens, idx as int);
                lemma_sum_prefix(lens, idx as int);
                lemma_sum_prefix(lens, idx + 1);
            }
            let text_offset = self.text_offset() + offset_in_parent;
            let green_child = green_children[idx].clone();
            offset_in_parent = offset_in_parent + green_child.text_len();
            let child: RedElement = match green_child {
                NodeOrToken::Node(node) => NodeOrToken::Node(
                    Rc::new(
                        RedNodeData {
                            parent: Some(rc_clone(self)),
                            index_in_parent: idx,
                            text_offset,
                            green: node,
                        },
                    ),
                ),
                NodeOrToken::Token(token) => NodeOrToken::Token(
                    Rc::new(
                        RedTokenData {
                            parent: Some(rc_clone(self)),
                            index_in_parent: idx,
                            text_offset,
                            green: token,
                        },
                    ),
                ),
            };
            r.push(child);
            idx += 1;
        }
        r
    }

    /// The root of a new tree: the tree of this node with `new_child` in
    /// place of this node's child at `idx`.
    ///
    /// The tree of this node stays as it is. The new tree has new green
    /// nodes from this node up to the root and shares every other subtree
    /// with the old one. The text of the new tree has to fit in `usize`.
    pub fn replace_child(self: &RedNode, idx: usize, new_child: GreenElement) -> (r: RedNode)
        requires
            idx < self.spec_green()@.spec_children().len(),
            self.root_green()@.spec_text_len() - element_len(
                self.spec_green()@.spec_children()[idx as int],
            ) + element_len(new_child) <= usize::MAX,
        ensures
            r.spec_parent().is_none(),
            r.spec_index() == 0,
            r.spec_offset() == 0,
            r.wf(),
            edited(self.root_green(), r.spec_green(), self.path(), idx as int, new_child),
            r.spec_green()@.spec_text() == text_before(self.root_green(), self.path(), idx as int)
                + element_text(new_child) + text_after(
                self.root_green(),
                self.path(),
                idx as int,
            ),
            r.spec_green()@.spec_text_len() == self.root_green()@.spec_text_len() - element_len(
                self.spec_green()@.spec_children()[idx as int],
            ) + element_len(new_child),
        decreases self.depth(), 1int,
    {
        let green = self.green();
        proof {
            self.lemma_within_root();
        }
        let new_green = Arc::new(green.replace_child(idx, new_child));
        let r = self.replace_ourselves(new_green, Ghost(idx as int), Ghost(new_child));
        proof {
            lemma_edit_text(self.root_green(), r.spec_green(), self.path(), idx as int, new_child);
        }
        r
    }

    /// The root of a new tree: the tree of this node with `new_green` in
    /// place of this node, where `new_green` is this node after one edit.
    fn replace_ourselves(
        self: &RedNode,
        new_green: GreenNode,
        idx: Ghost<int>,
        new_child: Ghost<GreenElement>,
    ) -> (r: RedNode)
        requires
            edited(self.spec_green(), new_green, Seq::empty(), idx@, new_child@),
            self.root_green()@.spec_text_len() - self.spec_green()@.spec_text_len()
                + new_green@.spec_text_len() <= usize::MAX,
        ensures
            r.spec_parent().is_none(),
            r.spec_index() == 0,
            r.spec_offset() == 0,
            r.wf(),
            edited(self.root_green(), r.spec_green(), self.path(), idx@, new_child@),
            r.spec_green()@.spec_text_len() == self.root_green()@.spec_text_len()
                - self.spec_green()@.spec_text_len() + new_green@.spec_text_len(),
        decreases self.depth(), 0int,
    {
        proof {
            use_type_invariant(&**self);
        }
        match self.parent() {
            Some(parent) => {
                let r = parent.replace_child(self.index_in_parent, NodeOrToken::Node(new_green));
                proof {
                    parent.lemma_path();
                    lemma_edited_push(
                        self.root_green(),
                        r.spec_green(),
                        parent.path(),
                        parent.spec_green(),
                        self.spec_index() as int,
                        self.spec_green(),
                        new_green,
                        idx@,
                        new_child@,
                    );
                }
                r
            },
            None => RedNodeData::new_root(new_green),
        }
    }

    /// The text below the node.
    pub fn to_string(&self) -> (s: String)
        ensures
            s@ == self.spec_green()@.spec_text(),
    {
        self.green().to_string()
    }
}

impl From<RedNode> for RedElement {
    /// The node, as an element.
    fn from(value: RedNode) -> (e: RedElement)
    {
        NodeOrToken::Node(value)
    }
}

impl vstd::std_specs::convert::FromSpecImpl<RedNode> for RedElement {
    open spec fn obeys_from_spec() -> bool {
        true
    }

    open spec fn from_spec(value: RedNode) -> RedElement {
        NodeOrToken::Node(value)
    }
}

impl From<RedToken> for RedElement {
    /// The token, as an element.
    fn from(value: RedToken) -> (e: RedElement)
    {
        NodeOrToken::Token(value)
    }
}

impl vstd::std_specs::convert::FromSpecImpl<RedToken> for RedElement {
    open spec fn obeys_from_spec() -> bool {
        true
    }

    open spec fn from_spec(value: RedToken) -> RedElement {
        NodeOrToken::Token(value)
    }
}

impl RedElement {
    /// Kind of the element.
    pub fn kind(&self) -> (k: SyntaxKind)
        ensures
            k == element_kind(red_green(*self)),
    {
        match self {
            NodeOrToken::Node(n) => n.kind(),
            NodeOrToken::Token(t) => t.kind(),
        }
    }

    /// Offset of the element's text from the start of the tree: the length
    /// in bytes of all the text before it.
    pub fn text_offset(&self) -> (n: usize)
        ensures
            n == red_offset(*self),
            n == byte_len(red_text_before(*self)),
            red_wf(*self),
    {
        match self {
            NodeOrToken::Node(n) => n.text_offset(),
            NodeOrToken::Token(t) => t.text_offset(),
        }
    }

    /// Length of the element's text in bytes.
    pub fn text_len(&self) -> (n: usize)
        ensures
            n == element_len(red_green(*self)),
    {
        match self {
            NodeOrToken::Node(n) => n.text_len(),
            NodeOrToken::Token(t) => t.text_len(),
        }
    }

    /// The node that the element is a child of, if it is not a root.
    pub fn parent(&self) -> (p: Option<&RedNode>)
        ensures
            match p {
                Some(p) => red_parent(*self) == Some(*p),
                None => red_parent(*self).is_none(),
            },
    {
        match self {
            NodeOrToken::Node(n) => n.parent(),
            NodeOrToken::Token(t) => t.parent(),
        }
    }

    /// The text of the element.
    pub fn to_string(&self) -> (s: String)
        ensures
            s@ == element_text(red_green(*self)),
    {
        match self {
            NodeOrToken::Node(n) => n.to_string(),
            NodeOrToken::Token(t) => t.to_string(),
        }
    }
}

impl Clone for RedNodeData {
    /// The same view: the same parent, place and green node.
    fn clone(&self) -> (r: Self)
        ensures
            r == *self,
    {
        proof {
            use_type_invariant(self);
        }
        RedNodeData {
            parent: match &self.parent {
                Some(p) => Some(rc_clone(p)),
                None => None,
            },
            index_in_parent: self.index_in_parent,
            text_offset: self.text_offset,
            green: self.green.clone(),
        }
    }
}

impl Clone for RedTokenData {
    /// The same view: the same parent, place and green token.
    fn clone(&self) -> (r: Self)
        ensures
            r == *self,
    {
        proof {
            use_type_invariant(self);
        }
        RedTokenData {
            parent: match &self.parent {
                Some(p) => Some(rc_clone(p)),
                None => None,
            },
            index_in_parent: self.index_in_parent,
            text_offset: self.text_offset,
            green: self.green.clone(),
        }
    }
}

} // verus!
