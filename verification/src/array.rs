//! A fixed-capacity sequence buffer with inline-style storage.
//!
//! [`Array`] keeps `N` slots and a length: slots `[0, len)` hold live values,
//! slots `[len, N)` are vacant and never observed. Each operation is
//! specified against the abstract sequence of live values (the view), and the
//! live/vacant discipline is carried as the well-formedness predicate `wf`.
//!
//! Mutating operations come in three tiers: a checked variant that reports
//! failure through its result, a direct variant whose precondition excludes
//! the failing inputs, and an internal-style variant whose precondition the
//! caller must prove outright. With verification the latter two coincide in
//! safety: a call that does not satisfy the precondition does not verify.

use vstd::prelude::*;

verus! {

/// Why a checked insertion was refused, carrying the rejected element back:
/// the index lay past the live region, or the buffer was at capacity.
#[derive(Debug, PartialEq, Eq)]
pub enum InsertError<T> {
    OutOfBounds(T),
    AtCapacity(T),
}

/// A capacity-`N` buffer of slots with a live prefix.
pub struct Array<const N: usize, T> {
    slots: Vec<Option<T>>,
    len: usize,
}

impl<const N: usize, T> View for Array<N, T> {
    type V = Seq<T>;

    /// The sequence of live values.
    closed spec fn view(&self) -> Seq<T> {
        Seq::new(self.len as nat, |i: int| self.slots@[i]->0)
    }
}

/// A vector of `n` vacant slots.
fn vacant_slots<T>(n: usize) -> (r: Vec<Option<T>>)
    ensures
        r@.len() == n,
        forall|i: int| 0 <= i < n ==> (#[trigger] r@[i]) is None,
{
    let mut v: Vec<Option<T>> = Vec::new();
    while v.len() < n
        invariant
            v@.len() <= n,
            forall|i: int| 0 <= i < v@.len() ==> (#[trigger] v@[i]) is None,
        decreases n - v@.len(),
    {
        v.push(None);
    }
    v
}

impl<const N: usize, T> Array<N, T> {
    /// Exactly the slots below `len` hold values; the slots from `len` up to
    /// the capacity are vacant.
    pub closed spec fn wf(self) -> bool {
        &&& self.slots@.len() == N
        &&& self.len <= N
        &&& forall|i: int| 0 <= i < self.len ==> (#[trigger] self.slots@[i]) is Some
        &&& forall|i: int| self.len <= i < N ==> (#[trigger] self.slots@[i]) is None
    }

    /// A well-formed buffer never holds more than its capacity.
    pub proof fn lemma_len_bounded(&self)
        requires
            self.wf(),
        ensures
            self@.len() <= N,
    {
    }

    /// Create an empty buffer.
    pub fn new() -> (r: Self)
        ensures
            r.wf(),
            r@ == Seq::<T>::empty(),
    {
        let r = Array { slots: vacant_slots(N), len: 0 };
        proof {
            assert(r@ =~= Seq::<T>::empty());
        }
        r
    }

    /// The total number of elements the buffer can hold.
    pub fn capacity(&self) -> (r: usize)
        ensures
            r == N,
    {
        N
    }

    /// The number of live elements.
    pub fn len(&self) -> (r: usize)
        ensures
            r == self@.len(),
    {
        self.len
    }

    /// Whether the buffer holds no elements.
    pub fn is_empty(&self) -> (r: bool)
        ensures
            r == (self@.len() == 0),
    {
        self.len == 0
    }

    /// A reference to the element at `index`.
    pub fn get(&self, index: usize) -> (r: &T)
        requires
            self.wf(),
            index < self@.len(),
        ensures
            *r == self@[index as int],
    {
        self.slots[index].as_ref().unwrap()
    }

    /// Replace the element at `index`, releasing the value previously there.
    pub fn set_at(&mut self, index: usize, value: T)
        requires
            old(self).wf(),
            index < old(self)@.len(),
        ensures
            final(self).wf(),
            final(self)@ == old(self)@.update(index as int, value),
    {
        self.slots[index] = Some(value);
        proof {
            assert(self@ =~= old(self)@.update(index as int, value));
        }
    }

    /// Append an element; the caller is responsible for spare capacity.
    pub fn push(&mut self, value: T)
        requires
            old(self).wf(),
            old(self)@.len() < N,
        ensures
            final(self).wf(),
            final(self)@ == old(self)@.push(value),
    {
        let r = self.push_checked(value);
        match r {
            Ok(()) => {}
            Err(_) => {
                proof {
                    assert(false);
                }
            }
        }
    }

    /// Append an element, handing it back if the buffer is full.
    pub fn push_checked(&mut self, value: T) -> (r: Result<(), T>)
        requires
            old(self).wf(),
        ensures
            final(self).wf(),
            old(self)@.len() < N ==> r is Ok && final(self)@ == old(self)@.push(value),
            old(self)@.len() == N ==> r == Err::<(), T>(value) && final(self)@ == old(self)@,
    {
        if self.len == self.capacity() {
            Err(value)
        } else {
            self.push_unchecked(value);
            Ok(())
        }
    }

    /// Append an element into the vacant slot at the tail; the precondition
    /// demands spare capacity.
    pub fn push_unchecked(&mut self, value: T)
        requires
            old(self).wf(),
            old(self)@.len() < N,
        ensures
            final(self).wf(),
            final(self)@ == old(self)@.push(value),
    {
        let len = self.len;
        self.slots[len] = Some(value);
        self.len = len + 1;
        proof {
            assert(self@ =~= old(self)@.push(value));
        }
    }

    /// Remove and return the tail element, or `None` on an empty buffer.
    pub fn pop(&mut self) -> (r: Option<T>)
        requires
            old(self).wf(),
        ensures
            final(self).wf(),
            old(self)@.len() == 0 ==> r is None && final(self)@ == old(self)@,
            old(self)@.len() > 0 ==> r == Some(old(self)@.last()) && final(self)@ == old(
                self,
            )@.drop_last(),
    {
        if self.is_empty() {
            None
        } else {
            Some(self.pop_unchecked())
        }
    }

    /// Remove and return the tail element; the precondition demands one.
    ///
    /// The length is shortened before the value leaves its slot, so at no
    /// point is a live value counted twice.
    pub fn pop_unchecked(&mut self) -> (r: T)
        requires
            old(self).wf(),
            old(self)@.len() > 0,
        ensures
            final(self).wf(),
            r == old(self)@.last(),
            final(self)@ == old(self)@.drop_last(),
    {
        let len = self.len - 1;
        self.len = len;
        let v = self.slots[len].take();
        proof {
            assert(self@ =~= old(self)@.drop_last());
        }
        v.unwrap()
    }

    /// Insert an element at `index`, shifting the elements at and after it
    /// one slot toward the tail; the caller is responsible for the bounds.
    pub fn insert(&mut self, index: usize, element: T)
        requires
            old(self).wf(),
            index <= old(self)@.len(),
            old(self)@.len() < N,
        ensures
            final(self).wf(),
            final(self)@ == old(self)@.insert(index as int, element),
    {
        let r = self.insert_checked(index, element);
        match r {
            Ok(()) => {}
            Err(_) => {
                proof {
                    assert(false);
                }
            }
        }
    }

    /// Insert an element at `index`, handing it back if `index` is out of
    /// bounds or the buffer is full; the two causes are reported distinctly,
    /// an out-of-bounds index taking precedence.
    pub fn insert_checked(&mut self, index: usize, element: T) -> (r: Result<(), InsertError<T>>)
        requires
            old(self).wf(),
        ensures
            final(self).wf(),
            index <= old(self)@.len() && old(self)@.len() < N ==> r is Ok && final(self)@ == old(
                self,
            )@.insert(index as int, element),
            index > old(self)@.len() ==> r == Err::<(), InsertError<T>>(
                InsertError::OutOfBounds(element),
            ) && final(self)@ == old(self)@,
            index <= old(self)@.len() && old(self)@.len() == N ==> r == Err::<(), InsertError<T>>(
                InsertError::AtCapacity(element),
            ) && final(self)@ == old(self)@,
    {
        if index > self.len {
            return Err(InsertError::OutOfBounds(element));
        }
        if self.len == self.capacity() {
            return Err(InsertError::AtCapacity(element));
        }
        self.insert_unchecked(index, element);
        Ok(())
    }

    /// Insert an element at `index` by walking the vacant tail slot down to
    /// `index`, one overlapping move per step; the precondition demands the
    /// bounds.
    pub fn insert_unchecked(&mut self, index: usize, element: T)
        requires
            old(self).wf(),
            index <= old(self)@.len(),
            old(self)@.len() < N,
        ensures
            final(self).wf(),
            final(self)@ == old(self)@.insert(index as int, element),
    {
        let ghost s0 = self.slots@;
        let len = self.len;
        let mut j = len;
        while j > index
            invariant
                index <= j <= len,
                len < N,
                self.len == len,
                self.slots@.len() == N,
                forall|i: int| 0 <= i < j ==> self.slots@[i] == s0[i],
                self.slots@[j as int] is None,
                forall|i: int| j < i <= len ==> self.slots@[i] == s0[i - 1],
                forall|i: int| len < i < N ==> (#[trigger] self.slots@[i]) is None,
                forall|i: int| 0 <= i < len ==> (#[trigger] s0[i]) is Some,
            decreases j,
        {
            let x = self.slots[j - 1].take();
            self.slots[j] = x;
            j = j - 1;
        }
        self.slots[index] = Some(element);
        self.len = len + 1;
        proof {
            assert forall|i: int| 0 <= i < self.len implies (#[trigger] self.slots@[i])
                is Some by {
                if i < index {
                    assert(self.slots@[i] == s0[i]);
                } else if i > index {
                    assert(self.slots@[i] == s0[i - 1]);
                }
            }
            assert(self@ =~= old(self)@.insert(index as int, element));
        }
    }

    /// Insert an element at `index`, relocating the element previously there
    /// to the tail; the caller is responsible for the bounds.
    pub fn swap_insert(&mut self, index: usize, element: T)
        requires
            old(self).wf(),
            index <= old(self)@.len(),
            old(self)@.len() < N,
        ensures
            final(self).wf(),
            index < old(self)@.len() ==> final(self)@ == old(self)@.update(
                index as int,
                element,
            ).push(old(self)@[index as int]),
            index == old(self)@.len() ==> final(self)@ == old(self)@.push(element),
    {
        let r = self.swap_insert_checked(index, element);
        match r {
            Ok(()) => {}
            Err(_) => {
                proof {
                    assert(false);
                }
            }
        }
    }

    /// Insert an element at `index`, relocating the element previously there
    /// to the tail; hands the element back if `index` is out of bounds or the
    /// buffer is full; the two causes are reported distinctly, an
    /// out-of-bounds index taking precedence.
    pub fn swap_insert_checked(&mut self, index: usize, element: T) -> (r: Result<
        (),
        InsertError<T>,
    >)
        requires
            old(self).wf(),
        ensures
            final(self).wf(),
            index < old(self)@.len() && old(self)@.len() < N ==> r is Ok && final(self)@ == old(
                self,
            )@.update(index as int, element).push(old(self)@[index as int]),
            index == old(self)@.len() && old(self)@.len() < N ==> r is Ok && final(self)@ == old(
                self,
            )@.push(element),
            index > old(self)@.len() ==> r == Err::<(), InsertError<T>>(
                InsertError::OutOfBounds(element),
            ) && final(self)@ == old(self)@,
            index <= old(self)@.len() && old(self)@.len() == N ==> r == Err::<(), InsertError<T>>(
                InsertError::AtCapacity(element),
            ) && final(self)@ == old(self)@,
    {
        if index > self.len {
            return Err(InsertError::OutOfBounds(element));
        }
        if self.len == self.capacity() {
            return Err(InsertError::AtCapacity(element));
        }
        self.swap_insert_unchecked(index, element);
        Ok(())
    }

    /// Insert an element at `index` in constant time: the element goes into
    /// the vacant tail slot, then the tail slot and slot `index` exchange
    /// their values; the precondition demands the bounds.
    pub fn swap_insert_unchecked(&mut self, index: usize, element: T)
        requires
            old(self).wf(),
            index <= old(self)@.len(),
            old(self)@.len() < N,
        ensures
            final(self).wf(),
            index < old(self)@.len() ==> final(self)@ == old(self)@.update(
                index as int,
                element,
            ).push(old(self)@[index as int]),
            index == old(self)@.len() ==> final(self)@ == old(self)@.push(element),
    {
        let len = self.len;
        self.slots[len] = Some(element);
        if index < len {
            let x = self.slots[index].take();
            let y = self.slots[len].take();
            self.slots[index] = y;
            self.slots[len] = x;
        }
        self.len = len + 1;
        proof {
            if index < old(self)@.len() {
                assert(self@ =~= old(self)@.update(index as int, element).push(
                    old(self)@[index as int],
                ));
            } else {
                assert(self@ =~= old(self)@.push(element));
            }
        }
    }

    /// Remove and return the element at `index`, shifting the elements after
    /// it one slot toward the head; the caller is responsible for the bounds.
    pub fn remove(&mut self, index: usize) -> (r: T)
        requires
            old(self).wf(),
            index < old(self)@.len(),
        ensures
            final(self).wf(),
            r == old(self)@[index as int],
            final(self)@ == old(self)@.remove(index as int),
    {
        let r = self.remove_checked(index);
        match r {
            Some(x) => x,
            None => vstd::pervasive::unreached(),
        }
    }

    /// Remove and return the element at `index`, or `None` if `index` is out
    /// of bounds.
    pub fn remove_checked(&mut self, index: usize) -> (r: Option<T>)
        requires
            old(self).wf(),
        ensures
            final(self).wf(),
            index < old(self)@.len() ==> r == Some(old(self)@[index as int]) && final(self)@ == old(
                self,
            )@.remove(index as int),
            index >= old(self)@.len() ==> r is None && final(self)@ == old(self)@,
    {
        if index >= self.len {
            return None;
        }
        Some(self.remove_unchecked(index))
    }

    /// Remove and return the element at `index` by walking the gap it leaves
    /// up to the tail, one overlapping move per step; the precondition
    /// demands the bounds.
    pub fn remove_unchecked(&mut self, index: usize) -> (r: T)
        requires
            old(self).wf(),
            index < old(self)@.len(),
        ensures
            final(self).wf(),
            r == old(self)@[index as int],
            final(self)@ == old(self)@.remove(index as int),
    {
        let ghost s0 = self.slots@;
        let out = self.slots[index].take();
        let len = self.len;
        let mut j = index;
        while j + 1 < len
            invariant
                index <= j < len,
                len <= N,
                self.len == len,
                self.slots@.len() == N,
                forall|i: int| 0 <= i < index ==> self.slots@[i] == s0[i],
                forall|i: int| index <= i < j ==> self.slots@[i] == s0[i + 1],
                self.slots@[j as int] is None,
                forall|i: int| j < i < len ==> self.slots@[i] == s0[i],
                forall|i: int| len <= i < N ==> (#[trigger] self.slots@[i]) is None,
                forall|i: int| 0 <= i < len && i != index ==> (#[trigger] s0[i]) is Some,
            decreases len - j,
        {
            let x = self.slots[j + 1].take();
            self.slots[j] = x;
            j = j + 1;
        }
        self.len = len - 1;
        proof {
            assert forall|i: int| 0 <= i < self.len implies (#[trigger] self.slots@[i])
                is Some by {
                if i < index {
                    assert(self.slots@[i] == s0[i]);
                } else {
                    assert(self.slots@[i] == s0[i + 1]);
                }
            }
            assert(self@ =~= old(self)@.remove(index as int));
        }
        out.unwrap()
    }

    /// Remove and return the element at `index`, relocating the tail element
    /// into its place; the caller is responsible for the bounds.
    pub fn swap_remove(&mut self, index: usize) -> (r: T)
        requires
            old(self).wf(),
            index < old(self)@.len(),
        ensures
            final(self).wf(),
            r == old(self)@[index as int],
            final(self)@ == old(self)@.update(index as int, old(self)@.last()).drop_last(),
    {
        let r = self.swap_remove_checked(index);
        match r {
            Some(x) => x,
            None => vstd::pervasive::unreached(),
        }
    }

    /// Remove and return the element at `index`, relocating the tail element
    /// into its place, or `None` if `index` is out of bounds.
    pub fn swap_remove_checked(&mut self, index: usize) -> (r: Option<T>)
        requires
            old(self).wf(),
        ensures
            final(self).wf(),
            index < old(self)@.len() ==> r == Some(old(self)@[index as int]) && final(self)@ == old(
                self,
            )@.update(index as int, old(self)@.last()).drop_last(),
            index >= old(self)@.len() ==> r is None && final(self)@ == old(self)@,
    {
        if index >= self.len {
            return None;
        }
        Some(self.swap_remove_unchecked(index))
    }

    /// Remove and return the element at `index` in constant time: the tail
    /// element moves into the gap; the precondition demands the bounds.
    pub fn swap_remove_unchecked(&mut self, index: usize) -> (r: T)
        requires
            old(self).wf(),
            index < old(self)@.len(),
        ensures
            final(self).wf(),
            r == old(self)@[index as int],
            final(self)@ == old(self)@.update(index as int, old(self)@.last()).drop_last(),
    {
        let last = self.len - 1;
        let out = self.slots[index].take();
        if index < last {
            let x = self.slots[last].take();
            self.slots[index] = x;
        }
        self.len = last;
        proof {
            assert(self@ =~= old(self)@.update(index as int, old(self)@.last()).drop_last());
        }
        out.unwrap()
    }

    /// Remove all elements, releasing each live slot in index order.
    pub fn clear(&mut self)
        requires
            old(self).wf(),
        ensures
            final(self).wf(),
            final(self)@ == Seq::<T>::empty(),
    {
        let len = self.len;
        let mut j: usize = 0;
        while j < len
            invariant
                j <= len <= N,
                self.len == len,
                self.slots@.len() == N,
                forall|i: int| 0 <= i < j ==> (#[trigger] self.slots@[i]) is None,
                forall|i: int| len <= i < N ==> (#[trigger] self.slots@[i]) is None,
            decreases len - j,
        {
            self.slots[j] = None;
            j = j + 1;
        }
        self.len = 0;
        proof {
            assert(self@ =~= Seq::<T>::empty());
        }
    }

    /// Bulk construction: move every element of `items` into a fresh buffer.
    pub fn from_parts(items: Vec<T>) -> (r: Self)
        requires
            items@.len() <= N,
        ensures
            r.wf(),
            r@ == items@,
    {
        let ghost items0 = items@;
        let mut items = items;
        let mut slots = vacant_slots::<T>(N);
        let m = items.len();
        let mut k = m;
        while k > 0
            invariant
                k <= m <= N,
                items@ =~= items0.subrange(0, k as int),
                items0.len() == m,
                slots@.len() == N,
                forall|i: int| k <= i < m ==> slots@[i] == Some(items0[i]),
                forall|i: int| 0 <= i < k ==> (#[trigger] slots@[i]) is None,
                forall|i: int| m <= i < N ==> (#[trigger] slots@[i]) is None,
            decreases k,
        {
            let x = items.pop().unwrap();
            k = k - 1;
            slots[k] = Some(x);
        }
        let r = Array { slots, len: m };
        proof {
            assert(r@ =~= items0);
        }
        r
    }

    /// Reassemble a buffer from its parts; the slot vector must hold live
    /// values exactly below `len`, which the precondition demands.
    pub fn from_parts_len(buf: Vec<Option<T>>, len: usize) -> (r: Self)
        requires
            buf@.len() == N,
            len <= N,
            forall|i: int| 0 <= i < len ==> (#[trigger] buf@[i]) is Some,
            forall|i: int| len <= i < N ==> (#[trigger] buf@[i]) is None,
        ensures
            r.wf(),
            r@.len() == len,
            forall|i: int| 0 <= i < len ==> r@[i] == buf@[i]->0,
    {
        Array { slots: buf, len }
    }

    /// Take the buffer apart into its slot vector and live count; the parts
    /// satisfy what [`Array::from_parts_len`] asks for.
    pub fn into_parts_len(self) -> (r: (Vec<Option<T>>, usize))
        requires
            self.wf(),
        ensures
            r.0@.len() == N,
            r.1 <= N,
            r.1 == self@.len(),
            forall|i: int| 0 <= i < r.1 ==> (#[trigger] r.0@[i]) is Some && r.0@[i]->0 == self@[i],
            forall|i: int| r.1 <= i < N ==> (#[trigger] r.0@[i]) is None,
    {
        let Array { slots, len } = self;
        (slots, len)
    }

    /// Move every element, in index order, onto the tail of `dst`, leaving
    /// this buffer empty.
    pub fn drain_into(&mut self, dst: &mut Vec<T>)
        requires
            old(self).wf(),
        ensures
            final(self).wf(),
            final(self)@ == Seq::<T>::empty(),
            final(dst)@ == old(dst)@ + old(self)@,
    {
        let ghost v0 = self@;
        let ghost slots0 = self.slots@;
        let ghost dst0 = dst@;
        let len = self.len;
        let mut j: usize = 0;
        while j < len
            invariant
                j <= len <= N,
                self.len == len,
                self.slots@.len() == N,
                v0 == old(self)@,
                v0.len() == len,
                forall|i: int| 0 <= i < j ==> (#[trigger] self.slots@[i]) is None,
                forall|i: int| j <= i < len ==> self.slots@[i] == slots0[i],
                forall|i: int| 0 <= i < len ==> (#[trigger] slots0[i]) is Some,
                forall|i: int| 0 <= i < len ==> v0[i] == slots0[i]->0,
                forall|i: int| len <= i < N ==> (#[trigger] self.slots@[i]) is None,
                dst@ == dst0 + v0.subrange(0, j as int),
            decreases len - j,
        {
            proof {
                assert(self.slots@[j as int] == slots0[j as int]);
                assert(slots0[j as int] is Some);
            }
            let x = self.slots[j].take();
            dst.push(x.unwrap());
            j = j + 1;
            proof {
                assert(dst@ =~= dst0 + v0.subrange(0, j as int));
            }
        }
        self.len = 0;
        proof {
            assert(self@ =~= Seq::<T>::empty());
            assert(v0.subrange(0, len as int) =~= v0);
        }
    }

    /// Consume the buffer into an iterator over its live values.
    pub fn into_iter(self) -> (r: IntoIter<N, T>)
        requires
            self.wf(),
        ensures
            r.wf(),
            r@ == self@,
    {
        let ghost v0 = self@;
        let Array { slots, len } = self;
        let r = IntoIter { slots, cur: 0, end: len };
        proof {
            assert(r@ =~= v0);
        }
        r
    }
}

impl<const N: usize, T> Default for Array<N, T> {
    /// An empty buffer.
    fn default() -> (r: Self)
        ensures
            r.wf(),
            r@ == Seq::<T>::empty(),
    {
        Self::new()
    }
}

/// A consuming iterator over the live values of an [`Array`].
///
/// Values not yet yielded sit in the slots `[cur, end)`; whatever is left
/// when the iterator is dropped is released with it.
pub struct IntoIter<const N: usize, T> {
    slots: Vec<Option<T>>,
    cur: usize,
    end: usize,
}

impl<const N: usize, T> View for IntoIter<N, T> {
    type V = Seq<T>;

    /// The sequence of values not yet yielded.
    closed spec fn view(&self) -> Seq<T> {
        Seq::new((self.end - self.cur) as nat, |i: int| self.slots@[self.cur + i]->0)
    }
}

impl<const N: usize, T> IntoIter<N, T> {
    /// The slots between the two cursors hold the values still to yield.
    pub closed spec fn wf(self) -> bool {
        &&& self.slots@.len() == N
        &&& self.cur <= self.end <= N
        &&& forall|i: int| self.cur <= i < self.end ==> (#[trigger] self.slots@[i]) is Some
    }

    /// Yield the next value from the front, or `None` when exhausted.
    pub fn next(&mut self) -> (r: Option<T>)
        requires
            old(self).wf(),
        ensures
            final(self).wf(),
            old(self)@.len() == 0 ==> r is None && final(self)@ == old(self)@,
            old(self)@.len() > 0 ==> r == Some(old(self)@.first()) && final(self)@ == old(
                self,
            )@.drop_first(),
    {
        if self.cur == self.end {
            return None;
        }
        let x = self.slots[self.cur].take();
        self.cur = self.cur + 1;
        proof {
            assert(self@ =~= old(self)@.drop_first());
        }
        Some(x.unwrap())
    }

    /// Yield the next value from the back, or `None` when exhausted.
    pub fn next_back(&mut self) -> (r: Option<T>)
        requires
            old(self).wf(),
        ensures
            final(self).wf(),
            old(self)@.len() == 0 ==> r is None && final(self)@ == old(self)@,
            old(self)@.len() > 0 ==> r == Some(old(self)@.last()) && final(self)@ == old(
                self,
            )@.drop_last(),
    {
        if self.cur == self.end {
            return None;
        }
        let e = self.end - 1;
        self.end = e;
        let x = self.slots[e].take();
        proof {
            assert(self@ =~= old(self)@.drop_last());
        }
        Some(x.unwrap())
    }
}

/// Law: inserting `v` at `i` and then removing at `i` yields `v` back and
/// restores the surrounding contents exactly, for every sequence, position
/// and value.
pub proof fn lemma_insert_then_remove<T>(s: Seq<T>, i: int, v: T)
    requires
        0 <= i <= s.len(),
    ensures
        s.insert(i, v)[i] == v,
        s.insert(i, v).remove(i) == s,
{
    s.insert_ensures(i, v);
    assert(s.insert(i, v).remove(i) =~= s);
}

/// Law: a push followed by a pop yields the pushed value back and restores
/// the prior contents, for every sequence and value.
pub proof fn lemma_push_then_pop<T>(s: Seq<T>, v: T)
    ensures
        s.push(v).last() == v,
        s.push(v).drop_last() == s,
{
    assert(s.push(v).drop_last() =~= s);
}

/// Law: removing at `i` by relocating the tail keeps every other element in
/// place; the old tail element lands at `i` whenever `i` was not the tail,
/// and the tail case is a plain shortening.
pub proof fn lemma_swap_remove_shape<T>(s: Seq<T>, i: int)
    requires
        0 <= i < s.len(),
    ensures
        s.update(i, s.last()).drop_last().len() == s.len() - 1,
        i < s.len() - 1 ==> s.update(i, s.last()).drop_last()[i] == s.last(),
        forall|j: int|
            0 <= j < s.len() - 1 && j != i ==> s.update(i, s.last()).drop_last()[j] == s[j],
        i == s.len() - 1 ==> s.update(i, s.last()).drop_last() == s.drop_last(),
{
    if i == s.len() - 1 {
        assert(s.update(i, s.last()).drop_last() =~= s.drop_last());
    }
}

/// A buffer holding `n` clones of one element.
pub fn from_elem<const N: usize, T: Clone>(elem: T, n: usize) -> (r: Array<N, T>)
    requires
        n <= N,
    ensures
        r.wf(),
        r@.len() == n,
        forall|i: int| 0 <= i < n ==> cloned(elem, #[trigger] r@[i]),
{
    let mut array = Array::<N, T>::new();
    let mut i: usize = 0;
    while i < n
        invariant
            i <= n <= N,
            array.wf(),
            array@.len() == i,
            forall|j: int| 0 <= j < i ==> cloned(elem, #[trigger] array@[j]),
        decreases n - i,
    {
        array.push(elem.clone());
        i = i + 1;
    }
    array
}

} // verus!
