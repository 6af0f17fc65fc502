//! Sequences: first matches and joined pieces.

use vstd::prelude::*;

verus! {

/// The first value that `f` gives along the sequence.
pub open spec fn first_some<A, B>(s: Seq<A>, f: spec_fn(A) -> Option<B>) -> Option<B>
    decreases s.len(),
{
    if s.len() == 0 {
        None
    } else {
        match first_some(s.drop_last(), f) {
            Some(b) => Some(b),
            None => f(s.last()),
        }
    }
}

/// One element more: the earlier value stays, else the new element decides.
pub proof fn lemma_first_some_step<A, B>(s: Seq<A>, f: spec_fn(A) -> Option<B>, n: int)
    requires
        0 <= n < s.len(),
    ensures
        first_some(s.take(n + 1), f) == (match first_some(s.take(n), f) {
            Some(b) => Some(b),
            None => f(s[n]),
        }),
{
    assert(s.take(n + 1).drop_last() =~= s.take(n));
}

/// What follows a match does not change which one is first.
pub proof fn lemma_first_some_stays<A, B>(s: Seq<A>, f: spec_fn(A) -> Option<B>, n: int)
    requires
        0 <= n <= s.len(),
        first_some(s.take(n), f) is Some,
    ensures
        first_some(s, f) == first_some(s.take(n), f),
    decreases s.len() - n,
{
    if n < s.len() {
        lemma_first_some_step(s, f, n);
        lemma_first_some_stays(s, f, n + 1);
    } else {
        assert(s.take(n) =~= s);
    }
}

/// The pieces one after the other.
pub open spec fn joined<A>(pieces: Seq<Seq<A>>) -> Seq<A>
    decreases pieces.len(),
{
    if pieces.len() == 0 {
        Seq::empty()
    } else {
        joined(pieces.drop_last()) + pieces.last()
    }
}

/// One piece more.
pub proof fn lemma_joined_push<A>(pieces: Seq<Seq<A>>, piece: Seq<A>)
    ensures
        joined(pieces.push(piece)) == joined(pieces) + piece,
{
    assert(pieces.push(piece).drop_last() =~= pieces);
}

/// Joining in two parts.
pub proof fn lemma_joined_add<A>(a: Seq<Seq<A>>, b: Seq<Seq<A>>)
    ensures
        joined(a + b) == joined(a) + joined(b),
    decreases b.len(),
{
    if b.len() == 0 {
        assert(a + b =~= a);
        assert(joined(a) + joined(b) =~= joined(a));
    } else {
        lemma_joined_add(a, b.drop_last());
        assert((a + b).drop_last() =~= a + b.drop_last());
        assert(joined(a + b) =~= joined(a) + joined(b));
    }
}

/// The sum of `f` over a sequence.
pub open spec fn sum_of<A>(s: Seq<A>, f: spec_fn(A) -> nat) -> nat
    decreases s.len(),
{
    if s.len() == 0 {
        0
    } else {
        sum_of(s.drop_last(), f) + f(s.last())
    }
}

/// One summand more.
pub proof fn lemma_sum_step<A>(s: Seq<A>, f: spec_fn(A) -> nat, n: int)
    requires
        0 <= n < s.len(),
    ensures
        sum_of(s.take(n + 1), f) == sum_of(s.take(n), f) + f(s[n]),
{
    assert(s.take(n + 1).drop_last() =~= s.take(n));
}

/// The sum over the first elements is no larger than over more of them.
pub proof fn lemma_sum_prefix<A>(s: Seq<A>, f: spec_fn(A) -> nat, n: int, m: int)
    requires
        0 <= n <= m <= s.len(),
    ensures
        sum_of(s.take(n), f) <= sum_of(s.take(m), f),
    decreases m - n,
{
    if n < m {
        lemma_sum_step(s, f, n);
        lemma_sum_prefix(s, f, n + 1, m);
    }
}

} // verus!
