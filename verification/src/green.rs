//! The green tree: immutable, without positions, shared between trees.
//!
//! A node owns its children through shared handles and caches the length of
//! the text below it. Nothing in a green tree changes once it is built: an
//! edit builds new nodes and takes every untouched subtree over by handle.

use vstd::prelude::*;
use vstd::std_specs::cmp::PartialEqSpec;
use vstd::string::StringExecFns;
use crate::arc::Arc;
use crate::text::{
    byte_len, byte_lens, concat, lemma_byte_len_of_concat, lemma_concat_nested, lemma_sum_prefix,
    lemma_sum_step, lemma_sum_update, sum,
};
use crate::{NodeOrToken, SyntaxKind};

pub mod edit;
pub mod token;

pub use token::{GreenToken, GreenTokenData};

verus! {

/// Shared handle to a node.
pub type GreenNode = Arc<GreenNodeData>;

/// A child of a node: a node or a token.
pub type GreenElement = NodeOrToken<GreenNode, GreenToken>;

/// An inner node: its kind, its children in order, and the length of its text.
#[derive(Debug)]
pub struct GreenNodeData {
    kind: SyntaxKind,
    children: Vec<GreenElement>,
    len: usize,
}

/// The kind of an element.
pub open spec fn element_kind(e: GreenElement) -> SyntaxKind {
    match e {
        NodeOrToken::Node(n) => n@.spec_kind(),
        NodeOrToken::Token(t) => t@.spec_kind(),
    }
}

/// The text of an element: that of a token, or all the text below a node.
pub open spec fn element_text(e: GreenElement) -> Seq<char>
    decreases e, 0int,
{
    match e {
        NodeOrToken::Node(n) => {
            proof {
                n.lemma_view_decreases();
            }
            n@.spec_text()
        },
        NodeOrToken::Token(t) => t@.spec_text(),
    }
}

/// The length of an element's text in bytes.
pub open spec fn element_len(e: GreenElement) -> nat {
    byte_len(element_text(e))
}

/// The texts of the elements, one by one.
pub open spec fn element_texts(es: Seq<GreenElement>) -> Seq<Seq<char>> {
    Seq::new(es.len(), |i: int| element_text(es[i]))
}

/// The lengths of the elements, one by one.
pub open spec fn element_lens(es: Seq<GreenElement>) -> Seq<nat> {
    Seq::new(es.len(), |i: int| element_len(es[i]))
}

/// Whether every cached length below the element is right.
pub open spec fn element_wf(e: GreenElement) -> bool
    decreases e, 0int,
{
    match e {
        NodeOrToken::Node(n) => {
            proof {
                n.lemma_view_decreases();
            }
            n@.wf()
        },
        NodeOrToken::Token(t) => t@.wf(),
    }
}

/// Whether two elements say the same: the same kinds over the same text, in
/// the same shape. Two elements can do so without being the same allocation.
pub open spec fn element_same(a: GreenElement, b: GreenElement) -> bool
    decreases a, 0int,
{
    match (a, b) {
        (NodeOrToken::Node(x), NodeOrToken::Node(y)) => {
            proof {
                x.lemma_view_decreases();
            }
            x@.same_content(&y@)
        },
        (NodeOrToken::Token(x), NodeOrToken::Token(y)) => x@.same_content(&y@),
        _ => false,
    }
}

/// The texts of the tokens below an element, from left to right.
pub open spec fn element_leaves(e: GreenElement) -> Seq<Seq<char>>
    decreases e, 0int,
{
    match e {
        NodeOrToken::Node(n) => {
            proof {
                n.lemma_view_decreases();
            }
            n@.leaves()
        },
        NodeOrToken::Token(t) => seq![t@.spec_text()],
    }
}

impl GreenNodeData {
    /// The kind of this node.
    pub closed spec fn spec_kind(&self) -> SyntaxKind {
        self.kind
    }

    /// The children of this node, in order.
    pub closed spec fn spec_children(&self) -> Seq<GreenElement> {
        self.children@
    }

    /// The texts of the children, in order.
    pub open spec fn child_texts(&self) -> Seq<Seq<char>>
        decreases self, 0int,
    {
        Seq::new(
            self.spec_children().len(),
            |i: int|
                if 0 <= i < self.spec_children().len() {
                    element_text(self.spec_children()[i])
                } else {
                    Seq::empty()
                },
        )
    }

    /// The text of this node: the texts of its children, one after another.
    pub open spec fn spec_text(&self) -> Seq<char>
        decreases self, 1int,
    {
        concat(self.child_texts())
    }

    /// The length of this node's text in bytes.
    pub open spec fn spec_text_len(&self) -> nat {
        byte_len(self.spec_text())
    }

    /// The leaves of the children, child by child.
    pub open spec fn child_leaves(&self) -> Seq<Seq<Seq<char>>>
        decreases self, 0int,
    {
        Seq::new(
            self.spec_children().len(),
            |i: int|
                if 0 <= i < self.spec_children().len() {
                    element_leaves(self.spec_children()[i])
                } else {
                    Seq::empty()
                },
        )
    }

    /// The texts of the tokens below this node, from left to right.
    pub open spec fn leaves(&self) -> Seq<Seq<char>>
        decreases self, 1int,
    {
        concat(self.child_leaves())
    }

    /// Whether two nodes say the same: the same kind, and children that say
    /// the same, one by one.
    pub open spec fn same_content(&self, other: &Self) -> bool
        decreases self, 1int,
    {
        &&& self.spec_kind() == other.spec_kind()
        &&& self.spec_children().len() == other.spec_children().len()
        &&& forall|i: int|
            0 <= i < self.spec_children().len() ==> element_same(
                #[trigger] self.spec_children()[i],
                other.spec_children()[i],
            )
    }

    /// The cached length is the length of the text, here and in every node
    /// below, and every token below is well formed.
    #[verifier::type_invariant]
    pub closed spec fn wf(&self) -> bool
        decreases self, 1int,
    {
        &&& self.len == byte_len(self.spec_text())
        &&& forall|i: int|
            0 <= i < self.children@.len() ==> element_wf(#[trigger] self.children@[i])
    }
}

/// Every element says the same as itself.
pub proof fn lemma_same_reflexive(e: GreenElement)
    ensures
        element_same(e, e),
    decreases e,
{
    match e {
        NodeOrToken::Node(n) => {
            n.lemma_view_decreases();
            assert forall|i: int| 0 <= i < n@.spec_children().len() implies element_same(
                #[trigger] n@.spec_children()[i],
                n@.spec_children()[i],
            ) by {
                n@.lemma_child_decreases(i);
                lemma_same_reflexive(n@.spec_children()[i]);
            }
        },
        NodeOrToken::Token(t) => {},
    }
}

/// Handles to nodes compare as the nodes do: by what they say.
pub proof fn lemma_handles_obey_eq()
    ensures
        GreenNode::obeys_eq_spec(),
{
    assert forall|x: GreenNodeData| #[trigger] x.eq_spec(&x) by {
        assert forall|i: int| 0 <= i < x.spec_children().len() implies element_same(
            #[trigger] x.spec_children()[i],
            x.spec_children()[i],
        ) by {
            lemma_same_reflexive(x.spec_children()[i]);
        }
    }
}

/// The text of an element is the text of the tokens below it, from left to
/// right: nothing is lost and nothing is added on the way up the tree.
pub proof fn lemma_text_is_leaves(e: GreenElement)
    ensures
        element_text(e) == concat(element_leaves(e)),
    decreases e,
{
    match e {
        NodeOrToken::Node(n) => {
            n.lemma_view_decreases();
            let node = n@;
            let joined = Seq::new(
                node.child_leaves().len(),
                |i: int| concat(node.child_leaves()[i]),
            );
            assert forall|i: int| 0 <= i < node.spec_children().len() implies node.child_texts()[i]
                == joined[i] by {
                node.lemma_child_decreases(i);
                lemma_text_is_leaves(node.spec_children()[i]);
            }
            assert(node.child_texts() == joined);
            lemma_concat_nested(node.child_leaves());
        },
        NodeOrToken::Token(t) => {
            let one = seq![t@.spec_text()];
            assert(one.drop_last() == Seq::<Seq<char>>::empty());
            assert(concat(one.drop_last()) + one.last() == t@.spec_text());
        },
    }
}

/// The cached lengths add up: the text of the children, piece by piece, is
/// as long as their lengths say.
proof fn lemma_lens_of_texts(es: Seq<GreenElement>)
    ensures
        byte_lens(element_texts(es)) == element_lens(es),
{
}

impl GreenNodeData {
    /// A node of the given kind over the given children.
    ///
    /// The length of the text is the sum of the lengths of the children; it
    /// has to fit in `usize`.
    pub fn new(kind: SyntaxKind, children: Vec<GreenElement>) -> (node: GreenNodeData)
        requires
            sum(element_lens(children@)) <= usize::MAX,
        ensures
            node.spec_kind() == kind,
            node.spec_children() == children@,
            node.spec_text_len() == sum(element_lens(children@)),
            node.wf(),
    {
        let ghost lens = element_lens(children@);
        let mut len: usize = 0;
        let mut i: usize = 0;
        while i < children.len()
            invariant
                i <= children.len(),
                lens == element_lens(children@),
                sum(lens) <= usize::MAX,
                len == sum(lens.take(i as int)),
                forall|j: int| 0 <= j < i ==> element_wf(#[trigger] children@[j]),
            decreases children.len() - i,
        {
            let n = children[i].text_len();
            proof {
                lemma_sum_step(lens, i as int);
                lemma_sum_prefix(lens, i + 1);
            }
            len = len + n;
            i += 1;
        }
        proof {
            assert(lens.take(i as int) == lens);
            lemma_lens_of_texts(children@);
            lemma_byte_len_of_concat(element_texts(children@));
            let built = GreenNodeData { kind, children, len };
            assert(built.child_texts() == element_texts(children@));
        }
        GreenNodeData { kind, children, len }
    }

    /// A node like this one but for the child at `idx`, which is `new_child`.
    ///
    /// This node is left as it is. The new node holds the other children by
    /// handle, and its length is counted anew.
    pub fn replace_child(&self, idx: usize, new_child: GreenElement) -> (node: GreenNodeData)
        requires
            idx < self.spec_children().len(),
            self.spec_text_len() - element_len(self.spec_children()[idx as int]) + element_len(
                new_child,
            ) <= usize::MAX,
        ensures
            node.spec_kind() == self.spec_kind(),
            node.spec_children() == self.spec_children().update(idx as int, new_child),
            node.spec_text_len() == self.spec_text_len() - element_len(
                self.spec_children()[idx as int],
            ) + element_len(new_child),
            node.wf(),
    {
        let ghost replaced = self.children@.update(idx as int, new_child);
        let mut new_children: Vec<GreenElement> = Vec::new();
        let mut i: usize = 0;
        while i < idx
            invariant
                i <= idx < self.children.len(),
                new_children@ == self.children@.take(i as int),
            decreases idx - i,
        {
            new_children.push(self.children[i].clone());
            i += 1;
        }
        new_children.push(new_child);
        i = idx + 1;
        while i < self.children.len()
            invariant
                idx < i <= self.children.len(),
                replaced == self.children@.update(idx as int, new_child),
                new_children@ == replaced.take(i as int),
            decreases self.children.len() - i,
        {
            new_children.push(self.children[i].clone());
            i += 1;
        }
        proof {
            assert(new_children@ == replaced);
            self.lemma_text_len_is_sum();
            lemma_sum_update(element_lens(self.children@), idx as int, element_len(new_child));
            assert(element_lens(replaced) == element_lens(self.children@).update(
                idx as int,
                element_len(new_child),
            ));
        }
        GreenNodeData::new(self.kind, new_children)
    }

    /// The text below this node: the text of every token below it, in order.
    pub fn to_string(&self) -> (s: String)
        ensures
            s@ == self.spec_text(),
    {
        let mut s = String::new();
        self.write_text(&mut s);
        s
    }

    /// Appends the text below this node to `out`.
    pub fn write_text(&self, out: &mut String)
        ensures
            final(out)@ == old(out)@ + self.spec_text(),
        decreases self,
    {
        let ghost texts = self.child_texts();
        let mut i: usize = 0;
        while i < self.children.len()
            invariant
                i <= self.children.len(),
                texts == self.child_texts(),
                out@ == old(out)@ + concat(texts.take(i as int)),
            decreases self.children.len() - i,
        {
            proof {
                assert(texts.take(i + 1).drop_last() == texts.take(i as int));
            }
            match &self.children[i] {
                NodeOrToken::Node(node) => {
                    proof {
                        node.lemma_view_decreases();
                    }
                    node.write_text(out);
                },
                NodeOrToken::Token(token) => {
                    out.append(token.text());
                },
            }
            i += 1;
        }
        proof {
            assert(texts.take(i as int) == texts);
        }
    }

    /// Whether the two nodes say the same, whether or not they share
    /// anything. Children that are one allocation are not looked into.
    pub fn same(&self, other: &Self) -> (r: bool)
        ensures
            r == self.same_content(other),
        decreases self,
    {
        if self.kind != other.kind || self.children.len() != other.children.len() {
            return false;
        }
        let mut i: usize = 0;
        while i < self.children.len()
            invariant
                i <= self.children.len(),
                self.kind == other.kind,
                self.children.len() == other.children.len(),
                forall|j: int|
                    0 <= j < i ==> element_same(#[trigger] self.children@[j], other.children@[j]),
            decreases self.children.len() - i,
        {
            let same = match (&self.children[i], &other.children[i]) {
                (NodeOrToken::Node(x), NodeOrToken::Node(y)) => {
                    proof {
                        x.lemma_view_decreases();
                        lemma_same_reflexive(self.children@[i as int]);
                    }
                    Arc::ptr_eq(x, y) || x.same(y)
                },
                (NodeOrToken::Token(x), NodeOrToken::Token(y)) => {
                    proof {
                        lemma_same_reflexive(self.children@[i as int]);
                    }
                    GreenToken::ptr_eq(x, y) || x.same(y)
                },
                _ => false,
            };
            if !same {
                return false;
            }
            i += 1;
        }
        true
    }

    /// The text of a node is the text of the tokens below it, from left to
    /// right.
    pub proof fn lemma_text_is_leaves(&self)
        ensures
            self.spec_text() == concat(self.leaves()),
    {
        let joined = Seq::new(
            self.child_leaves().len(),
            |i: int| concat(self.child_leaves()[i]),
        );
        assert forall|i: int| 0 <= i < self.spec_children().len() implies self.child_texts()[i]
            == joined[i] by {
            lemma_text_is_leaves(self.spec_children()[i]);
        }
        assert(self.child_texts() == joined);
        lemma_concat_nested(self.child_leaves());
    }

    /// The length of the text of a node is the sum of the lengths of the
    /// texts of its children.
    pub proof fn lemma_text_len_is_sum(&self)
        ensures
            self.spec_text_len() == sum(element_lens(self.spec_children())),
    {
        lemma_byte_len_of_concat(self.child_texts());
        assert(byte_lens(self.child_texts()) == element_lens(self.spec_children()));
    }

    /// The text of a well-formed node fits in `usize`, and its children are
    /// well formed.
    pub proof fn lemma_wf(&self)
        requires
            self.wf(),
        ensures
            self.spec_text_len() <= usize::MAX,
            forall|i: int|
                0 <= i < self.spec_children().len() ==> element_wf(
                    #[trigger] self.spec_children()[i],
                ),
    {
    }

    /// A node is larger than each of its children, so that recursion may
    /// pass from a node to its children.
    pub proof fn lemma_child_decreases(&self, i: int)
        requires
            0 <= i < self.spec_children().len(),
        ensures
            decreases_to!(*self => self.spec_children()[i]),
    {
    }

    /// Kind of this node.
    pub fn kind(&self) -> (k: SyntaxKind)
        ensures
            k == self.spec_kind(),
    {
        self.kind
    }

    /// Length in bytes of all the text below this node.
    pub fn text_len(&self) -> (n: usize)
        ensures
            n == self.spec_text_len(),
            self.wf(),
    {
        proof {
            use_type_invariant(self);
        }
        self.len
    }

    /// The children of this node, in order; each is a new handle to the
    /// child itself, not a copy of it.
    pub fn children(&self) -> (r: Vec<GreenElement>)
        ensures
            r@ == self.spec_children(),
    {
        let mut r: Vec<GreenElement> = Vec::new();
        let mut i: usize = 0;
        while i < self.children.len()
            invariant
                i <= self.children.len(),
                r@ == self.children@.take(i as int),
            decreases self.children.len() - i,
        {
            r.push(self.children[i].clone());
            i += 1;
        }
        r
    }
}

impl Clone for GreenNodeData {
    /// A node of the same kind over the same children, held by handle.
    fn clone(&self) -> (node: Self)
        ensures
            node.spec_kind() == self.spec_kind(),
            node.spec_children() == self.spec_children(),
            node.wf(),
    {
        proof {
            use_type_invariant(self);
        }
        let children = self.children();
        proof {
            let built = GreenNodeData { kind: self.kind, children, len: self.len };
            assert(built.child_texts() == self.child_texts());
        }
        GreenNodeData { kind: self.kind, children, len: self.len }
    }
}

impl PartialEq for GreenNodeData {
    /// Whether the two nodes say the same.
    fn eq(&self, other: &Self) -> (r: bool)
    {
        self.same(other)
    }
}

impl vstd::std_specs::cmp::PartialEqSpecImpl for GreenNodeData {
    open spec fn obeys_eq_spec() -> bool {
        true
    }

    open spec fn eq_spec(&self, other: &Self) -> bool {
        self.same_content(other)
    }
}

impl Eq for GreenNodeData {}

impl From<GreenNode> for GreenElement {
    /// The node, as an element.
    fn from(value: GreenNode) -> (e: GreenElement)
    {
        NodeOrToken::Node(value)
    }
}

impl vstd::std_specs::convert::FromSpecImpl<GreenNode> for GreenElement {
    open spec fn obeys_from_spec() -> bool {
        true
    }

    open spec fn from_spec(value: GreenNode) -> GreenElement {
        NodeOrToken::Node(value)
    }
}

impl From<GreenToken> for GreenElement {
    /// The token, as an element.
    fn from(value: GreenToken) -> (e: GreenElement)
    {
        NodeOrToken::Token(value)
    }
}

impl vstd::std_specs::convert::FromSpecImpl<GreenToken> for GreenElement {
    open spec fn obeys_from_spec() -> bool {
        true
    }

    open spec fn from_spec(value: GreenToken) -> GreenElement {
        NodeOrToken::Token(value)
    }
}

impl From<Arc<GreenTokenData>> for GreenElement {
    /// The token behind the handle, as an element.
    fn from(value: Arc<GreenTokenData>) -> (e: GreenElement)
        ensures
            e is Token,
            e->Token_0@ == value@,
    {
        NodeOrToken::Token(GreenToken::from(value))
    }
}

impl vstd::std_specs::convert::FromSpecImpl<Arc<GreenTokenData>> for GreenElement {
    open spec fn obeys_from_spec() -> bool {
        true
    }

    open spec fn from_spec(value: Arc<GreenTokenData>) -> GreenElement {
        NodeOrToken::Token(GreenToken::of(value))
    }
}

impl GreenElement {
    /// The text of this element.
    pub fn to_string(&self) -> (s: String)
        ensures
            s@ == element_text(*self),
    {
        match self {
            NodeOrToken::Node(node) => node.to_string(),
            NodeOrToken::Token(token) => token.to_string(),
        }
    }

    /// Kind of this element.
    pub fn kind(&self) -> (k: SyntaxKind)
        ensures
            k == element_kind(*self),
    {
        match self {
            NodeOrToken::Node(node) => node.kind(),
            NodeOrToken::Token(token) => token.kind(),
        }
    }

    /// Length in bytes of the text of this element.
    pub fn text_len(&self) -> (n: usize)
        ensures
            n == element_len(*self),
            element_wf(*self),
    {
        match self {
            NodeOrToken::Node(node) => node.text_len(),
            NodeOrToken::Token(token) => token.text_len(),
        }
    }
}

} // verus!
