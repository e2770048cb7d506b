//! Leaves of the green tree: a kind and the text it covers.

use vstd::prelude::*;
use text_size::TextSize;
use crate::arc::Arc;
use crate::text::byte_len;
use crate::SyntaxKind;

verus! {

/// Measures `text` with `text_size::TextSize::of` and hands the size back as
/// the `u32` that a `TextSize` holds. `TextSize::of` takes the length of the
/// string in bytes and panics when that does not fit in 32 bits, so such
/// text is left out; for the rest the result is that length.
#[verifier::external_body]
fn text_size_of(text: &str) -> (n: u32)
    requires
        byte_len(text@) <= u32::MAX,
    ensures
        n == byte_len(text@),
{
    TextSize::of(text).into()
}

/// A leaf: its kind and its text.
#[derive(Debug, Hash)]
pub struct GreenTokenData {
    kind: SyntaxKind,
    text: String,
}

impl GreenTokenData {
    /// The kind of this token.
    pub closed spec fn spec_kind(&self) -> SyntaxKind {
        self.kind
    }

    /// The text of this token.
    pub closed spec fn spec_text(&self) -> Seq<char> {
        self.text@
    }

    /// The text of a token is at most `u32::MAX` bytes long.
    #[verifier::type_invariant]
    pub closed spec fn wf(&self) -> bool {
        byte_len(self.text@) <= u32::MAX
    }

    /// Whether two tokens say the same: the same kind over the same text.
    pub open spec fn same_content(&self, other: &Self) -> bool {
        self.spec_kind() == other.spec_kind() && self.spec_text() == other.spec_text()
    }

    /// A token of the given kind and text.
    pub fn new(kind: SyntaxKind, text: String) -> (t: GreenTokenData)
        requires
            byte_len(text@) <= u32::MAX,
        ensures
            t.spec_kind() == kind,
            t.spec_text() == text@,
            t.wf(),
    {
        GreenTokenData { kind, text }
    }

    /// Kind of this token.
    pub fn kind(&self) -> (k: SyntaxKind)
        ensures
            k == self.spec_kind(),
    {
        self.kind
    }

    /// Text of this token.
    pub fn text(&self) -> (s: &str)
        ensures
            s@ == self.spec_text(),
    {
        self.text.as_str()
    }

    /// The text of this token, as a string of its own.
    pub fn to_string(&self) -> (s: String)
        ensures
            s@ == self.spec_text(),
    {
        self.text.clone()
    }

    /// Whether the two tokens say the same.
    pub fn same(&self, other: &Self) -> (r: bool)
        ensures
            r == self.same_content(other),
    {
        self.kind == other.kind && self.text == other.text
    }

    /// Length of the text in bytes.
    pub fn text_len(&self) -> (n: usize)
        ensures
            n == byte_len(self.spec_text()),
            self.wf(),
    {
        proof {
            use_type_invariant(self);
        }
        text_size_of(self.text()) as usize
    }
}

impl Clone for GreenTokenData {
    /// A copy with the same kind and text.
    fn clone(&self) -> (t: Self)
        ensures
            t == *self,
    {
        proof {
            use_type_invariant(self);
        }
        GreenTokenData { kind: self.kind, text: self.text.clone() }
    }
}

impl PartialEq for GreenTokenData {
    /// Whether the two tokens say the same.
    fn eq(&self, other: &Self) -> (r: bool)
    {
        self.same(other)
    }
}

impl vstd::std_specs::cmp::PartialEqSpecImpl for GreenTokenData {
    open spec fn obeys_eq_spec() -> bool {
        true
    }

    open spec fn eq_spec(&self, other: &Self) -> bool {
        self.same_content(other)
    }
}

impl Eq for GreenTokenData {}

/// Leaf of the green tree: a shared handle to a token.
#[derive(Debug, Hash)]
pub struct GreenToken {
    ptr: Arc<GreenTokenData>,
}

impl View for GreenToken {
    type V = GreenTokenData;

    closed spec fn view(&self) -> GreenTokenData {
        self.ptr@
    }
}

impl GreenToken {
    /// A new token of the given kind and text, behind a handle of its own.
    pub fn new(kind: SyntaxKind, text: &str) -> (t: GreenToken)
        requires
            byte_len(text@) <= u32::MAX,
        ensures
            t@.spec_kind() == kind,
            t@.spec_text() == text@,
            t@.wf(),
    {
        GreenToken { ptr: Arc::new(GreenTokenData::new(kind, text.to_owned())) }
    }

    /// Whether the two handles are one allocation. Two handles that are one
    /// allocation hold the same token.
    pub fn ptr_eq(this: &Self, other: &Self) -> (r: bool)
        ensures
            r ==> *this == *other,
    {
        Arc::ptr_eq(&this.ptr, &other.ptr)
    }
}

impl Clone for GreenToken {
    /// Another handle to the same token.
    fn clone(&self) -> (t: Self)
        ensures
            t == *self,
    {
        GreenToken { ptr: self.ptr.clone() }
    }
}

impl std::ops::Deref for GreenToken {
    type Target = GreenTokenData;

    /// The token behind the handle.
    fn deref(&self) -> (t: &GreenTokenData)
        ensures
            *t == self@,
    {
        &self.ptr
    }
}

impl From<Arc<GreenTokenData>> for GreenToken {
    /// The handle, as the handle of a leaf.
    fn from(ptr: Arc<GreenTokenData>) -> (t: GreenToken)
        ensures
            t@ == ptr@,
    {
        GreenToken { ptr }
    }
}

impl vstd::std_specs::convert::FromSpecImpl<Arc<GreenTokenData>> for GreenToken {
    open spec fn obeys_from_spec() -> bool {
        true
    }

    open spec fn from_spec(ptr: Arc<GreenTokenData>) -> GreenToken {
        GreenToken::of(ptr)
    }
}

impl GreenToken {
    /// The leaf that holds the given handle.
    pub closed spec fn of(ptr: Arc<GreenTokenData>) -> GreenToken {
        GreenToken { ptr }
    }

    /// The leaf that holds a handle shows what the handle holds.
    pub proof fn lemma_of(ptr: Arc<GreenTokenData>)
        ensures
            GreenToken::of(ptr)@ == ptr@,
    {
    }
}

impl PartialEq for GreenToken {
    /// Whether the two tokens say the same. Two handles to one allocation do
    /// and are not looked into.
    fn eq(&self, other: &Self) -> (r: bool)
    {
        GreenToken::ptr_eq(self, other) || self.ptr.same(&other.ptr)
    }
}

impl vstd::std_specs::cmp::PartialEqSpecImpl for GreenToken {
    open spec fn obeys_eq_spec() -> bool {
        true
    }

    open spec fn eq_spec(&self, other: &Self) -> bool {
        self@.same_content(&other@)
    }
}

impl Eq for GreenToken {}

} // verus!
