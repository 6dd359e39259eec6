//! Append-only sequences with a fixed bound: when a new entry would exceed
//! the bound, the oldest entries are dropped first.
use vstd::prelude::*;

verus! {

/// `s` with `x` appended, keeping only the newest `cap` entries.
pub open spec fn bounded_push<A>(s: Seq<A>, x: A, cap: nat) -> Seq<A> {
    let t = s.push(x);
    if t.len() > cap {
        t.subrange(t.len() - cap, t.len() as int)
    } else {
        t
    }
}

/// Appends `x` to `v`, then drops the oldest entry if `v` now holds more
/// than `cap` entries.
pub fn push_bounded<T>(v: &mut Vec<T>, x: T, cap: usize)
    requires
        0 < cap,
        old(v)@.len() <= cap,
    ensures
        final(v)@ == bounded_push(old(v)@, x, cap as nat),
        final(v)@.len() <= cap,
{
    v.push(x);
    if v.len() > cap {
        v.remove(0);
        assert(final(v)@ =~= bounded_push(old(v)@, x, cap as nat));
    }
}

/// A bounded push never leaves more than `cap` entries behind.
pub proof fn lemma_bounded_push_len<A>(s: Seq<A>, x: A, cap: nat)
    requires
        0 < cap,
    ensures
        bounded_push(s, x, cap).len() <= cap,
        s.len() < cap ==> bounded_push(s, x, cap).len() == s.len() + 1,
        s.len() >= cap ==> bounded_push(s, x, cap).len() == cap,
{
}

/// Eviction is first in, first out: pushing onto a full sequence drops
/// exactly its oldest entry, keeps the others in their order, and puts the
/// new entry last.
pub proof fn lemma_bounded_push_fifo<A>(s: Seq<A>, x: A, cap: nat)
    requires
        0 < cap,
        s.len() == cap,
    ensures
        bounded_push(s, x, cap) == s.subrange(1, s.len() as int).push(x),
        bounded_push(s, x, cap).last() == x,
        forall|i: int| 0 <= i < cap - 1 ==> #[trigger] bounded_push(s, x, cap)[i] == s[i + 1],
{
    assert(bounded_push(s, x, cap) =~= s.subrange(1, s.len() as int).push(x));
}

/// Mapping every entry commutes with a bounded push.
pub proof fn lemma_bounded_push_map<A, B>(s: Seq<A>, x: A, cap: nat, f: spec_fn(A) -> B)
    ensures
        bounded_push(s, x, cap).map_values(f) == bounded_push(s.map_values(f), f(x), cap),
{
    assert(s.push(x).map_values(f) =~= s.map_values(f).push(f(x)));
    let t = s.push(x);
    if t.len() > cap {
        assert(t.subrange(t.len() - cap, t.len() as int).map_values(f) =~= t.map_values(f).subrange(
            t.len() - cap,
            t.len() as int,
        ));
    }
}

/// The newest `cap` entries of `s`, in their order.
pub open spec fn keep_last<A>(s: Seq<A>, cap: nat) -> Seq<A> {
    if s.len() > cap {
        s.subrange(s.len() - cap, s.len() as int)
    } else {
        s
    }
}

/// `s` after a bounded push of each of `xs`, first to last.
pub open spec fn bounded_push_all<A>(s: Seq<A>, xs: Seq<A>, cap: nat) -> Seq<A>
    decreases xs.len(),
{
    if xs.len() == 0 {
        s
    } else {
        bounded_push(bounded_push_all(s, xs.drop_last(), cap), xs.last(), cap)
    }
}

/// Any run of bounded pushes keeps exactly the newest `cap` entries of
/// everything pushed, in the order they were pushed: nothing is reordered,
/// and only the oldest entries are dropped.
pub proof fn lemma_bounded_push_all<A>(s: Seq<A>, xs: Seq<A>, cap: nat)
    requires
        0 < cap,
        s.len() <= cap,
    ensures
        bounded_push_all(s, xs, cap) == keep_last(s + xs, cap),
    decreases xs.len(),
{
    if xs.len() == 0 {
        assert(s + xs =~= s);
    } else {
        let ys = xs.drop_last();
        let x = xs.last();
        lemma_bounded_push_all(s, ys, cap);
        let t = s + ys;
        assert(s + xs =~= t.push(x));
        let k = keep_last(t, cap);
        if t.len() > cap {
            assert(keep_last(k.push(x), cap) =~= keep_last(t.push(x), cap));
        } else {
            assert(k == t);
        }
    }
}

/// While the bound is not reached, bounded pushes drop nothing.
pub proof fn lemma_bounded_push_all_below_cap<A>(s: Seq<A>, xs: Seq<A>, cap: nat)
    requires
        s.len() + xs.len() <= cap,
    ensures
        bounded_push_all(s, xs, cap) == s + xs,
{
    if cap > 0 {
        lemma_bounded_push_all(s, xs, cap);
    } else {
        assert(xs =~= Seq::<A>::empty());
        assert(s + xs =~= s);
    }
}

} // verus!
