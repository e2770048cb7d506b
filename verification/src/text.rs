//! Measuring text.
//!
//! Text is modelled as a sequence of `char`s; its size is the number of bytes
//! of its UTF-8 encoding. The lemmas here say how that size adds up when
//! pieces of text are put one after another.

use vstd::prelude::*;
use vstd::utf8::encode_utf8;

verus! {

/// Number of bytes that `text` takes in UTF-8.
pub open spec fn byte_len(text: Seq<char>) -> nat {
    encode_utf8(text).len()
}

/// Total of a sequence of sizes.
pub open spec fn sum(sizes: Seq<nat>) -> nat
    decreases sizes.len(),
{
    if sizes.len() == 0 {
        0
    } else {
        sum(sizes.drop_last()) + sizes.last()
    }
}

/// The sizes of the pieces, piece by piece.
pub open spec fn byte_lens(pieces: Seq<Seq<char>>) -> Seq<nat> {
    Seq::new(pieces.len(), |i: int| byte_len(pieces[i]))
}

/// The pieces put one after another.
pub open spec fn concat<A>(pieces: Seq<Seq<A>>) -> Seq<A>
    decreases pieces.len(),
{
    if pieces.len() == 0 {
        Seq::empty()
    } else {
        concat(pieces.drop_last()) + pieces.last()
    }
}

/// Encoding text piecewise gives the encoding of the whole.
pub proof fn lemma_encode_concat(a: Seq<char>, b: Seq<char>)
    ensures
        encode_utf8(a + b) == encode_utf8(a) + encode_utf8(b),
    decreases a.len(),
{
    if a.len() == 0 {
        assert(a + b == b);
        assert(encode_utf8(a) + encode_utf8(b) == encode_utf8(b));
    } else {
        lemma_encode_concat(a.drop_first(), b);
        assert((a + b).drop_first() == a.drop_first() + b);
        assert((a + b)[0] == a[0]);
    }
}

/// The size of two pieces put together is the sum of their sizes.
pub proof fn lemma_byte_len_concat(a: Seq<char>, b: Seq<char>)
    ensures
        byte_len(a + b) == byte_len(a) + byte_len(b),
{
    lemma_encode_concat(a, b);
}

/// Every `char` takes between one and four bytes.
pub proof fn lemma_byte_len_bounds(text: Seq<char>)
    ensures
        text.len() <= byte_len(text) <= 4 * text.len(),
    decreases text.len(),
{
    if text.len() > 0 {
        lemma_byte_len_bounds(text.drop_first());
    }
}

/// The size of a concatenation is the sum of the sizes of its pieces.
pub proof fn lemma_byte_len_of_concat(pieces: Seq<Seq<char>>)
    ensures
        byte_len(concat(pieces)) == sum(byte_lens(pieces)),
    decreases pieces.len(),
{
    if pieces.len() == 0 {
    } else {
        lemma_byte_len_of_concat(pieces.drop_last());
        lemma_byte_len_concat(concat(pieces.drop_last()), pieces.last());
        assert(byte_lens(pieces).drop_last() == byte_lens(pieces.drop_last()));
    }
}

/// Putting two runs of pieces together and then joining them is joining each
/// and putting the results together.
pub proof fn lemma_concat_add<A>(a: Seq<Seq<A>>, b: Seq<Seq<A>>)
    ensures
        concat(a + b) == concat(a) + concat(b),
    decreases b.len(),
{
    if b.len() == 0 {
        assert(a + b == a);
    } else {
        lemma_concat_add(a, b.drop_last());
        assert((a + b).drop_last() == a + b.drop_last());
    }
}

/// A single piece joins to itself.
pub proof fn lemma_concat_one<A>(piece: Seq<A>)
    ensures
        concat(seq![piece]) == piece,
{
    let one = seq![piece];
    assert(one.drop_last() == Seq::<Seq<A>>::empty());
    assert(concat(one.drop_last()) + one.last() == piece);
}

/// The pieces joined are the pieces before one of them joined, then that
/// piece, then the pieces after it joined.
pub proof fn lemma_concat_split<A>(pieces: Seq<Seq<A>>, i: int)
    requires
        0 <= i < pieces.len(),
    ensures
        concat(pieces) == concat(pieces.take(i)) + pieces[i] + concat(pieces.skip(i + 1)),
{
    let before = pieces.take(i);
    let one = seq![pieces[i]];
    let after = pieces.skip(i + 1);
    assert(pieces == before + one + after);
    lemma_concat_add(before + one, after);
    lemma_concat_add(before, one);
    lemma_concat_one(pieces[i]);
}

/// Joining twice is the same whichever level is joined first.
pub proof fn lemma_concat_nested<A>(groups: Seq<Seq<Seq<A>>>)
    ensures
        concat(concat(groups)) == concat(Seq::new(groups.len(), |i: int| concat(groups[i]))),
    decreases groups.len(),
{
    let joined = Seq::new(groups.len(), |i: int| concat(groups[i]));
    if groups.len() == 0 {
        assert(concat(groups) == Seq::<Seq<A>>::empty());
    } else {
        let rest = groups.drop_last();
        lemma_concat_nested(rest);
        lemma_concat_add(concat(rest), groups.last());
        assert(joined.drop_last() == Seq::new(rest.len(), |i: int| concat(rest[i])));
    }
}

/// A sum never falls below the sum of a prefix.
pub proof fn lemma_sum_prefix(sizes: Seq<nat>, n: int)
    requires
        0 <= n <= sizes.len(),
    ensures
        sum(sizes.take(n)) <= sum(sizes),
    decreases sizes.len(),
{
    if n == sizes.len() {
        assert(sizes.take(n) == sizes);
    } else {
        lemma_sum_prefix(sizes.drop_last(), n);
        assert(sizes.drop_last().take(n) == sizes.take(n));
    }
}

/// Taking one more element adds that element to the sum.
pub proof fn lemma_sum_step(sizes: Seq<nat>, n: int)
    requires
        0 <= n < sizes.len(),
    ensures
        sum(sizes.take(n + 1)) == sum(sizes.take(n)) + sizes[n],
{
    assert(sizes.take(n + 1).drop_last() == sizes.take(n));
}

/// Replacing one size changes the sum by the difference.
pub proof fn lemma_sum_update(sizes: Seq<nat>, i: int, v: nat)
    requires
        0 <= i < sizes.len(),
    ensures
        sum(sizes.update(i, v)) + sizes[i] == sum(sizes) + v,
    decreases sizes.len(),
{
    if i == sizes.len() - 1 {
        assert(sizes.update(i, v).drop_last() == sizes.drop_last());
    } else {
        lemma_sum_update(sizes.drop_last(), i, v);
        assert(sizes.update(i, v).drop_last() == sizes.drop_last().update(i, v));
    }
}

} // verus!
