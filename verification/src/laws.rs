//! The laws of the ring stack, stated and proved over the abstract model.
//!
//! Each law speaks of the same spec functions that the executable methods'
//! contracts use — `push_model`, `pushed`, `entry_at`, `top_of` — so it
//! applies to every stack value those contracts describe.

use vstd::prelude::*;
use vstd::math::min;

use crate::model::{entry_at, push_model, pushed, top_of};

verus! {

/// Law: one push grows the contents by exactly one entry until the length
/// saturates at the capacity `n`.
pub proof fn lemma_push_len<T>(s: Seq<T>, v: T, n: int)
    requires
        1 <= n,
        s.len() <= n,
    ensures
        push_model(s, v, n).len() == min(s.len() as int + 1, n),
{
}

/// Generalisation over a whole push sequence: pushing `vs` (oldest first)
/// onto valid contents `s` of a stack of capacity `n` retains the most recent
/// `n` values, newest first.
pub proof fn lemma_pushed<T>(s: Seq<T>, vs: Seq<T>, n: int)
    requires
        1 <= n,
        s.len() <= n,
    ensures
        pushed(s, vs, n) == (vs.reverse() + s).take(min(vs.len() as int + s.len() as int, n)),
    decreases vs.len(),
{
    let m = vs.len() as int;
    let l = s.len() as int;
    if m == 0 {
        assert((vs.reverse() + s).take(min(l, n)) =~= s);
    } else {
        let s1 = push_model(s, vs[0], n);
        assert(s1.len() == min(l + 1, n));
        lemma_pushed(s1, vs.drop_first(), n);
        let lhs = (vs.drop_first().reverse() + s1).take(min(m - 1 + s1.len() as int, n));
        let rhs = (vs.reverse() + s).take(min(m + l, n));
        assert(min(m - 1 + s1.len() as int, n) == min(m + l, n));
        assert forall|i: int| 0 <= i < min(m + l, n) implies lhs[i] == rhs[i] by {
            if i < m - 1 {
                assert(vs.drop_first().reverse()[i] == vs.drop_first()[m - 2 - i]);
                assert(vs.reverse()[i] == vs[m - 1 - i]);
            } else if i == m - 1 {
                assert(vs.reverse()[m - 1] == vs[0]);
            } else {
                assert(lhs[i] == s.take(min(l, n - 1))[i - m]);
                assert(rhs[i] == s[i - m]);
            }
        }
        assert(lhs =~= rhs);
    }
}

/// Law: after any sequence of pushes into an empty stack of capacity `n`,
/// the contents are the most recent `min(count, n)` pushed values, newest
/// first — in particular the length equals the number of pushes until it
/// saturates at `n`.
pub proof fn lemma_pushed_from_empty<T>(vs: Seq<T>, n: int)
    requires
        1 <= n,
    ensures
        pushed(Seq::<T>::empty(), vs, n) == vs.reverse().take(min(vs.len() as int, n)),
        pushed(Seq::<T>::empty(), vs, n).len() == min(vs.len() as int, n),
{
    lemma_pushed(Seq::<T>::empty(), vs, n);
    assert((vs.reverse() + Seq::<T>::empty()).take(min(vs.len() as int, n)) =~= vs.reverse().take(
        min(vs.len() as int, n),
    ));
}

/// Law: exactly `n` pushes fill the stack, and the contents are the pushed
/// values newest first.
pub proof fn lemma_fill_to_capacity<T>(vs: Seq<T>, n: int)
    requires
        1 <= n,
        vs.len() == n,
    ensures
        pushed(Seq::<T>::empty(), vs, n) == vs.reverse(),
{
    lemma_pushed_from_empty(vs, n);
    assert(vs.reverse().take(n) =~= vs.reverse());
}

/// Law: one push beyond the capacity drops exactly the first pushed value;
/// the contents are the last `n` pushed values, newest first.
pub proof fn lemma_push_beyond_capacity<T>(vs: Seq<T>, n: int)
    requires
        1 <= n,
        vs.len() == n + 1,
    ensures
        pushed(Seq::<T>::empty(), vs, n) == vs.reverse().take(n),
        forall|k: int| 0 <= k < n ==> pushed(Seq::<T>::empty(), vs, n)[k] == vs[n - k],
{
    lemma_pushed_from_empty(vs, n);
}

/// Law (round trip): a push followed immediately by a pop returns the pushed
/// value; on a stack that was not yet full it leaves both the contents and
/// the length exactly as they were, and in particular restores the previously
/// peeked value. On a full stack the pop cannot resurrect the entry the push
/// evicted: the bottom value is gone for good, though the top — what peek saw
/// before the push — is still restored whenever the capacity is at least two.
pub proof fn lemma_push_then_pop<T>(s: Seq<T>, v: T, n: int)
    requires
        1 <= n,
        s.len() <= n,
    ensures
        push_model(s, v, n).len() > 0,
        top_of(push_model(s, v, n)) == Some(v),
        push_model(s, v, n).drop_first() == s.take(min(s.len() as int, n - 1)),
        s.len() < n ==> push_model(s, v, n).drop_first() == s,
        1 <= s.len() && 2 <= n ==> top_of(push_model(s, v, n).drop_first()) == top_of(s),
{
    assert(push_model(s, v, n).drop_first() =~= s.take(min(s.len() as int, n - 1)));
    if s.len() < n {
        assert(s.take(min(s.len() as int, n - 1)) =~= s);
    }
}

/// Law: the top of the stack is exactly its entry at offset zero.
pub proof fn lemma_top_is_entry_zero<T>(s: Seq<T>)
    ensures
        top_of(s) == entry_at(s, 0),
{
}

/// Law: every offset at or beyond the current length holds nothing.
pub proof fn lemma_entry_beyond_len_absent<T>(s: Seq<T>, k: int)
    requires
        s.len() <= k,
    ensures
        entry_at(s, k) is None,
{
}

/// Law: within the current length, the entry at offset `k` is exactly the
/// `k`-th value of the contents — the `k`-th value iteration yields.
pub proof fn lemma_entry_matches_position<T>(s: Seq<T>, k: int)
    requires
        0 <= k < s.len(),
    ensures
        entry_at(s, k) == Some(s[k]),
{
}

/// Law: writing through a position replaces exactly that entry; the length,
/// the order and every other entry are untouched, so later reads see the new
/// value and nothing else changes.
pub proof fn lemma_update_in_place<T>(s: Seq<T>, k: int, v: T)
    requires
        0 <= k < s.len(),
    ensures
        s.update(k, v).len() == s.len(),
        entry_at(s.update(k, v), k) == Some(v),
        forall|j: int| 0 <= j < s.len() && j != k ==> entry_at(s.update(k, v), j) == entry_at(s, j),
        top_of(s.update(k, v)) == (if k == 0 {
            Some(v)
        } else {
            top_of(s)
        }),
{
}

} // verus!
