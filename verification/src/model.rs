//! The mathematical model of the ring stack: where each entry lives in the
//! ring, what the abstract contents look like, and how a push transforms them.

use vstd::prelude::*;
use vstd::math::min;

verus! {

/// Physical slot of the entry `k` positions below the top, when the top entry
/// sits in slot `cursor` of a ring of `n` slots. For `0 <= cursor < n` and
/// `0 <= k < n` this equals `(cursor + n - k) % n`, written without `%`.
pub open spec fn ring_index(cursor: int, k: int, n: int) -> int {
    if k <= cursor {
        cursor - k
    } else {
        cursor + n - k
    }
}

/// The value `k` positions below the top of the abstract stack, if any.
pub open spec fn entry_at<T>(s: Seq<T>, k: int) -> Option<T> {
    if 0 <= k < s.len() {
        Some(s[k])
    } else {
        None
    }
}

/// The most recently pushed value still present, if any.
pub open spec fn top_of<T>(s: Seq<T>) -> Option<T> {
    entry_at(s, 0)
}

/// Strips the reference from an optional borrowed result, so that contracts
/// can speak of the underlying value.
pub open spec fn opt_value<T>(o: Option<&T>) -> Option<T> {
    match o {
        Some(v) => Some(*v),
        None => None,
    }
}

/// Abstract effect of one push on the contents (newest first) of a stack of
/// capacity `n`: the new value goes on top, and when the stack is full the
/// oldest entry falls off the bottom.
pub open spec fn push_model<T>(s: Seq<T>, v: T, n: int) -> Seq<T> {
    seq![v] + s.take(min(s.len() as int, n - 1))
}

/// Abstract effect of a sequence of pushes, applied oldest first.
pub open spec fn pushed<T>(s: Seq<T>, vs: Seq<T>, n: int) -> Seq<T>
    decreases vs.len(),
{
    if vs.len() == 0 {
        s
    } else {
        pushed(push_model(s, vs[0], n), vs.drop_first(), n)
    }
}

} // verus!
