//! An immutable, full-fidelity syntax tree.
//!
//! The green tree holds kinds and text and nothing about position, so that
//! subtrees can be shared between trees. The red tree is a view over a green
//! tree that adds parents and absolute offsets, and is where edits start.
//!
//! - [`arc`]: the shared handle through which green trees own their parts.
//! - [`green`]: tokens, nodes, their text and their lengths;
//!   [`green::edit`] says what an edit keeps and what it rebuilds.
//! - [`red`]: parents, offsets, and `replace_child`, which copies the path
//!   from the edit to the root and shares the rest.
//! - [`text`]: how the size of text adds up.
//! - [`kinds`], [`delta`], [`cow_mut`]: small things beside the trees.
//!
//! Every tree ever built stays valid: nothing here changes a node in place.

use vstd::prelude::*;

pub mod arc;
pub mod cow_mut;
pub mod delta;
pub mod green;
pub mod kinds;
pub mod red;
pub mod text;

verus! {

/// Tag of a grammar production or of a token type: a small number that the
/// tree carries and does not look into.
pub type SyntaxKind = u16;

/// Either an inner node or a leaf token.
#[derive(Debug)]
pub enum NodeOrToken<N, T> {
    Node(N),
    Token(T),
}

impl<N: Clone, T: Clone> Clone for NodeOrToken<N, T> {
    /// The same variant, holding a clone of what this one holds.
    fn clone(&self) -> (r: Self)
        ensures
            match (*self, r) {
                (NodeOrToken::Node(a), NodeOrToken::Node(b)) => cloned(a, b),
                (NodeOrToken::Token(a), NodeOrToken::Token(b)) => cloned(a, b),
                _ => false,
            },
    {
        match self {
            NodeOrToken::Node(n) => NodeOrToken::Node(n.clone()),
            NodeOrToken::Token(t) => NodeOrToken::Token(t.clone()),
        }
    }
}

impl<N, T> NodeOrToken<N, T> {
    /// The node, if this is one.
    pub fn into_node(self) -> (r: Option<N>)
        ensures
            r == match self {
                NodeOrToken::Node(n) => Some(n),
                NodeOrToken::Token(_) => None,
            },
    {
        match self {
            NodeOrToken::Node(n) => Some(n),
            NodeOrToken::Token(_) => None,
        }
    }

    /// The token, if this is one.
    pub fn into_token(self) -> (r: Option<T>)
        ensures
            r == match self {
                NodeOrToken::Node(_) => None,
                NodeOrToken::Token(t) => Some(t),
            },
    {
        match self {
            NodeOrToken::Node(_) => None,
            NodeOrToken::Token(t) => Some(t),
        }
    }
}

} // verus!
