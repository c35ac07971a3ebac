//! A fixed-capacity, last-write-wins stack built on a circular buffer.
//!
//! [`RingStack<T, N>`] holds at most `N` values of type `T`. Pushing never
//! fails: once the stack is full, each new push silently discards the oldest
//! retained value. Popping, peeking and positional lookup walk the ring from
//! the most recent value outward, so the contents always read newest first.
//!
//! The abstract contents of a stack `s` are the sequence `s@` of its values,
//! newest first; every operation's contract is stated over that sequence.

use vstd::prelude::*;
use vstd::math::min;
use vstd::pervasive::unreached;

pub mod laws;
pub mod model;

use crate::model::{ring_index, entry_at, top_of, opt_value, push_model};

verus! {

/// A stack of at most `N` values, kept in a ring of `N` slots.
///
/// `buffer` is the ring itself: `N` slots, each empty or holding one value.
/// `cursor` is the slot of the most recently pushed value (the top) whenever
/// the stack is nonempty. `len` counts the occupied slots; it saturates at
/// `N`, since a push onto a full stack overwrites the oldest slot instead of
/// filling a new one.
#[derive(Debug, Clone)]
pub struct RingStack<T, const N: usize> {
    buffer: Vec<Option<T>>,
    cursor: usize,
    len: usize,
}

impl<T, const N: usize> View for RingStack<T, N> {
    type V = Seq<T>;

    /// The abstract contents: the occupied slots, newest first.
    closed spec fn view(&self) -> Seq<T> {
        Seq::new(
            self.len as nat,
            |k: int| self.buffer@[ring_index(self.cursor as int, k, N as int)].unwrap(),
        )
    }
}

impl<T, const N: usize> RingStack<T, N> {
    /// Internal consistency: the ring has exactly `N` slots, the cursor and
    /// the count are in range, and a slot is occupied exactly when it lies
    /// within `len` backward steps of the cursor.
    pub closed spec fn wf(&self) -> bool {
        &&& 1 <= N
        &&& self.buffer@.len() == N as int
        &&& (self.cursor as int) < N as int
        &&& (self.len as int) <= N as int
        &&& forall|j: int|
            0 <= j < N as int ==> ((#[trigger] self.buffer@[j]) is Some <==> ring_index(
                self.cursor as int,
                j,
                N as int,
            ) < self.len as int)
    }

    /// The slot currently holding the top value (meaningful while nonempty).
    pub closed spec fn spec_cursor(&self) -> int {
        self.cursor as int
    }

    /// The raw ring of slots, in slot order.
    pub closed spec fn spec_slots(&self) -> Seq<Option<T>> {
        self.buffer@
    }

    /// Creates an empty stack: `N` empty slots, allocated once.
    pub fn new() -> (r: Self)
        requires
            1 <= N,
        ensures
            r.wf(),
            r@ == Seq::<T>::empty(),
            r.spec_cursor() == 0,
            forall|j: int| 0 <= j < N as int ==> (#[trigger] r.spec_slots()[j]) is None,
    {
        let mut buffer: Vec<Option<T>> = Vec::with_capacity(N);
        let mut i: usize = 0;
        while i < N
            invariant
                i <= N,
                buffer@.len() == i as int,
                forall|j: int| 0 <= j < i as int ==> (#[trigger] buffer@[j]) is None,
            decreases N - i,
        {
            buffer.push(None);
            i = i + 1;
        }
        let r = RingStack { buffer, cursor: 0, len: 0 };
        proof {
            assert(r@ =~= Seq::<T>::empty());
        }
        r
    }

    /// Pushes `val` on top of the stack. Never fails: on a full stack the
    /// oldest retained value is silently discarded to make room.
    pub fn push(&mut self, val: T)
        requires
            old(self).wf(),
        ensures
            final(self).wf(),
            final(self)@ == push_model(old(self)@, val, N as int),
            final(self)@.len() == min(old(self)@.len() as int + 1, N as int),
            final(self).spec_cursor() == (if old(self).spec_cursor() == N as int - 1 {
                0int
            } else {
                old(self).spec_cursor() + 1
            }),
    {
        let c: usize = if self.cursor >= N - 1 {
            0
        } else {
            self.cursor + 1
        };
        self.cursor = c;
        if self.len < N {
            self.len = self.len + 1;
        }
        self.buffer[c] = Some(val);
        proof {
            let n = N as int;
            let c0 = old(self).cursor as int;
            assert forall|j: int| 0 <= j < n && j != c as int implies ring_index(
                c as int,
                j,
                n,
            ) == ring_index(c0, j, n) + 1 by {}
            assert forall|k: int| 1 <= k < n implies ring_index(c as int, k, n) == ring_index(
                c0,
                k - 1,
                n,
            ) by {
                let j = ring_index(c0, k - 1, n);
                assert(ring_index(c0, j, n) == k - 1);
            }
            assert(final(self)@ =~= push_model(old(self)@, val, n));
        }
    }

    /// Removes and returns the top value, or `None` if the stack is empty.
    /// The cursor retreats either way, mirroring the motion of a push.
    pub fn pop(&mut self) -> (r: Option<T>)
        requires
            old(self).wf(),
        ensures
            final(self).wf(),
            old(self)@.len() == 0 ==> r is None && final(self)@ == old(self)@,
            old(self)@.len() > 0 ==> r == Some(old(self)@[0]) && final(self)@ == old(
                self,
            )@.drop_first(),
            final(self).spec_cursor() == (if old(self).spec_cursor() == 0 {
                N as int - 1
            } else {
                old(self).spec_cursor() - 1
            }),
    {
        let v: Option<T> = self.buffer[self.cursor].take();
        let c: usize = if self.cursor == 0 {
            N - 1
        } else {
            self.cursor - 1
        };
        self.cursor = c;
        if self.len > 0 {
            self.len = self.len - 1;
        }
        proof {
            let n = N as int;
            let c0 = old(self).cursor as int;
            assert forall|j: int| 0 <= j < n && j != c0 implies ring_index(c as int, j, n)
                == ring_index(c0, j, n) - 1 by {}
            assert forall|k: int| 0 <= k < n - 1 implies ring_index(c as int, k, n) == ring_index(
                c0,
                k + 1,
                n,
            ) by {
                let j = ring_index(c0, k + 1, n);
                assert(ring_index(c0, j, n) == k + 1);
            }
            if old(self)@.len() == 0 {
                assert(final(self)@ =~= old(self)@);
            } else {
                assert(final(self)@ =~= old(self)@.drop_first());
            }
        }
        v
    }

    /// Number of values currently held, in `[0, N]`.
    pub fn len(&self) -> (r: usize)
        ensures
            r == self@.len(),
    {
        self.len
    }

    /// Borrows the top value without mutating, or `None` if the stack is
    /// empty.
    pub fn peek(&self) -> (r: Option<&T>)
        requires
            self.wf(),
        ensures
            opt_value(r) == top_of(self@),
    {
        match &self.buffer[self.cursor] {
            Some(v) => Some(v),
            None => None,
        }
    }

    /// Looks up the value `index` positions below the top: `get(0)` is the
    /// top itself. Lenient: any offset with nothing there — beyond the
    /// current length, or beyond the capacity — answers `None`.
    pub fn get(&self, index: usize) -> (r: Option<&T>)
        requires
            self.wf(),
        ensures
            opt_value(r) == entry_at(self@, index as int),
    {
        if index >= N {
            None
        } else {
            let phys: usize = if index <= self.cursor {
                self.cursor - index
            } else {
                self.cursor + (N - index)
            };
            proof {
                assert(ring_index(self.cursor as int, ring_index(self.cursor as int, index as int, N as int), N as int)
                    == index as int);
            }
            match &self.buffer[phys] {
                Some(v) => Some(v),
                None => None,
            }
        }
    }

    /// Borrows the value `index` positions below the top. Strict: the offset
    /// must lie below the current length, so the addressed slot is occupied.
    pub fn index(&self, index: usize) -> (r: &T)
        requires
            self.wf(),
            index < self@.len(),
        ensures
            *r == self@[index as int],
    {
        let phys: usize = if index <= self.cursor {
            self.cursor - index
        } else {
            self.cursor + (N - index)
        };
        proof {
            assert(ring_index(self.cursor as int, ring_index(self.cursor as int, index as int, N as int), N as int)
                == index as int);
        }
        match &self.buffer[phys] {
            Some(v) => v,
            None => unreached(),
        }
    }

    /// Mutably borrows the value `index` positions below the top, so it can
    /// be updated in place; the order and the count are unaffected. Strict,
    /// like [`RingStack::index`].
    pub fn index_mut(&mut self, index: usize) -> (r: &mut T)
        requires
            old(self).wf(),
            index < old(self)@.len(),
        ensures
            *r == old(self)@[index as int],
            final(self).wf(),
            final(self)@ == old(self)@.update(index as int, *final(r)),
    {
        let phys: usize = if index <= self.cursor {
            self.cursor - index
        } else {
            self.cursor + (N - index)
        };
        proof {
            let n = N as int;
            let c = self.cursor as int;
            assert(ring_index(c, ring_index(c, index as int, n), n) == index as int);
            assert forall|k: int| 0 <= k < n && k != index as int implies ring_index(c, k, n)
                != phys as int by {
                assert(ring_index(c, ring_index(c, k, n), n) == k);
            }
        }
        match &mut self.buffer[phys] {
            Some(v) => v,
            None => unreached(),
        }
    }

    /// Collects borrows of the occupied slots, newest first: the historical
    /// order, exactly `len()` entries.
    pub fn iter(&self) -> (r: Vec<&T>)
        requires
            self.wf(),
        ensures
            r@.len() == self@.len(),
            forall|k: int| 0 <= k < r@.len() ==> *(#[trigger] r@[k]) == self@[k],
    {
        let mut r: Vec<&T> = Vec::new();
        let mut k: usize = 0;
        while k < self.len
            invariant
                self.wf(),
                k <= self@.len(),
                self.len == self@.len(),
                r@.len() == k as int,
                forall|j: int| 0 <= j < k as int ==> *(#[trigger] r@[j]) == self@[j],
            decreases self.len - k,
        {
            r.push(self.index(k));
            k = k + 1;
        }
        r
    }

    /// The slot the top value sits in; exposed so that callers can observe
    /// the ring layout itself.
    pub fn cursor(&self) -> (r: usize)
        ensures
            r as int == self.spec_cursor(),
    {
        self.cursor
    }

    /// Reads the raw slot `j` of the ring, occupied or not.
    pub fn slot(&self, j: usize) -> (r: &Option<T>)
        requires
            self.wf(),
            j < N,
        ensures
            *r == self.spec_slots()[j as int],
    {
        &self.buffer[j]
    }
}

} // verus!
