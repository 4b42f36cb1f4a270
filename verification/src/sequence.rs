//! An ordered, cyclic collection with a current-position cursor.
//!
//! The collection is a contiguous owned sequence plus an index: advancing
//! past the last index wraps to the first, retreating past the first wraps
//! to the last. Membership is fixed once the list is built; only the cursor
//! moves.

use vstd::prelude::*;
use crate::timer::ConfigError;

verus! {

/// What an `advance` reports: whether the cursor wrapped to the front.
pub struct AdvanceResult {
    pub wrapped: bool,
}

/// What a `retreat` reports: whether the cursor wrapped to the back.
pub struct RetreatResult {
    pub wrapped: bool,
}

/// The cursor index after one forward step through a cycle of `len` items.
pub open spec fn next_cursor(c: int, len: int) -> int {
    if c + 1 >= len {
        0
    } else {
        c + 1
    }
}

/// The cursor index after one backward step through a cycle of `len` items.
pub open spec fn prev_cursor(c: int, len: int) -> int {
    if c == 0 {
        len - 1
    } else {
        c - 1
    }
}

/// An ordered sequence of items with a cyclic cursor.
pub struct CyclicList<T> {
    items: Vec<T>,
    cursor: usize,
}

impl<T> View for CyclicList<T> {
    type V = Seq<T>;

    closed spec fn view(&self) -> Seq<T> {
        self.items@
    }
}

impl<T> CyclicList<T> {
    /// The current cursor position.
    pub closed spec fn spec_cursor(&self) -> int {
        self.cursor as int
    }

    /// The cursor is in range; an empty list parks it at zero.
    pub open spec fn wf(&self) -> bool {
        if self@.len() == 0 {
            self.spec_cursor() == 0
        } else {
            0 <= self.spec_cursor() < self@.len()
        }
    }

    /// An empty list with the cursor at the front.
    pub fn new() -> (r: Self)
        ensures
            r@ == Seq::<T>::empty(),
            r.spec_cursor() == 0,
            r.wf(),
    {
        CyclicList { items: Vec::new(), cursor: 0 }
    }

    /// Wraps a non-empty list of items, cursor at the front. An empty list
    /// is rejected.
    pub fn build(items: Vec<T>) -> (r: Result<Self, ConfigError>)
        ensures
            match r {
                Ok(l) => items@.len() > 0 && l@ == items@ && l.spec_cursor() == 0 && l.wf(),
                Err(e) => items@.len() == 0 && e matches ConfigError::Empty,
            },
    {
        if items.len() == 0 {
            Err(ConfigError::Empty)
        } else {
            Ok(CyclicList { items, cursor: 0 })
        }
    }

    /// Appends an item at the back; the cursor stays where it is.
    pub fn push_back(&mut self, data: T)
        requires
            old(self).wf(),
        ensures
            final(self)@ == old(self)@.push(data),
            final(self).spec_cursor() == old(self).spec_cursor(),
            final(self).wf(),
    {
        self.items.push(data);
    }

    /// How many items the list holds.
    pub fn len(&self) -> (n: usize)
        ensures
            n == self@.len(),
    {
        self.items.len()
    }

    /// The item at index `i`.
    pub fn get(&self, i: usize) -> (t: &T)
        requires
            i < self@.len(),
        ensures
            *t == self@[i as int],
    {
        &self.items[i]
    }

    /// The current cursor position.
    pub fn cursor_index(&self) -> (c: usize)
        ensures
            c as int == self.spec_cursor(),
    {
        self.cursor
    }

    /// The item under the cursor, or nothing when the list is empty.
    pub fn current(&self) -> (r: Option<&T>)
        requires
            self.wf(),
        ensures
            match r {
                Some(t) => self@.len() > 0 && *t == self@[self.spec_cursor()],
                None => self@.len() == 0,
            },
    {
        if self.items.len() == 0 {
            None
        } else {
            Some(&self.items[self.cursor])
        }
    }

    /// Moves the cursor one step forward, wrapping past the last index to
    /// the front, and reports whether it wrapped.
    pub fn advance(&mut self) -> (r: AdvanceResult)
        requires
            old(self).wf(),
            old(self)@.len() > 0,
        ensures
            final(self)@ == old(self)@,
            final(self).spec_cursor() == next_cursor(
                old(self).spec_cursor(),
                old(self)@.len() as int,
            ),
            r.wrapped == (final(self).spec_cursor() == 0),
            final(self).wf(),
    {
        let len = self.items.len();
        self.cursor = if self.cursor >= len - 1 {
            0
        } else {
            self.cursor + 1
        };
        AdvanceResult { wrapped: self.cursor == 0 }
    }

    /// Moves the cursor one step backward, wrapping past the first index to
    /// the back, and reports whether it wrapped.
    pub fn retreat(&mut self) -> (r: RetreatResult)
        requires
            old(self).wf(),
            old(self)@.len() > 0,
        ensures
            final(self)@ == old(self)@,
            final(self).spec_cursor() == prev_cursor(
                old(self).spec_cursor(),
                old(self)@.len() as int,
            ),
            r.wrapped == (final(self).spec_cursor() == old(self)@.len() - 1),
            final(self).wf(),
    {
        let len = self.items.len();
        self.cursor = if self.cursor == 0 {
            len - 1
        } else {
            self.cursor - 1
        };
        RetreatResult { wrapped: self.cursor == len - 1 }
    }
}

impl<T> Default for CyclicList<T> {
    /// An empty list with the cursor at the front.
    fn default() -> (r: Self)
        ensures
            r@ == Seq::<T>::empty(),
            r.spec_cursor() == 0,
            r.wf(),
    {
        Self::new()
    }
}

/// The cursor position after `k` forward steps.
pub open spec fn cursor_after(c0: int, len: int, k: nat) -> int
    decreases k,
{
    if k == 0 {
        c0
    } else {
        next_cursor(cursor_after(c0, len, (k - 1) as nat), len)
    }
}

proof fn lemma_cursor_after_closed(c0: int, len: int, k: nat)
    requires
        0 <= c0 < len,
        k <= len,
    ensures
        cursor_after(c0, len, k) == if c0 + k < len {
            c0 + k
        } else {
            c0 + k - len
        },
    decreases k,
{
    if k > 0 {
        lemma_cursor_after_closed(c0, len, (k - 1) as nat);
    }
}

/// Cyclic wrap law: from any valid cursor, taking as many forward steps as
/// the list has items returns the cursor to where it started, and the step
/// that lands on the front — the wrapping one — happens exactly once on the
/// way, on step `len - c0`.
pub proof fn lemma_cyclic_wrap(c0: int, len: int)
    requires
        0 <= c0 < len,
    ensures
        cursor_after(c0, len, len as nat) == c0,
        forall|k: nat|
            1 <= k <= len ==> ((#[trigger] cursor_after(c0, len, k) == 0) <==> k == len - c0),
{
    lemma_cursor_after_closed(c0, len, len as nat);
    assert forall|k: nat|
        1 <= k <= len implies ((#[trigger] cursor_after(c0, len, k) == 0) <==> k == len
        - c0) by {
        lemma_cursor_after_closed(c0, len, k);
    }
}

} // verus!
