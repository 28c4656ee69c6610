//! A hybrid sequence container over inline or heap storage.
//!
//! [`SwitchVec`] holds either an inline [`Array`](crate::array::Array) or a
//! heap `Vec`, and exposes one sequence interface over whichever
//! representation is active. Growing operations first secure room through
//! [`SwitchVec::reserve`], which migrates the contents to the heap when the
//! inline capacity is exhausted; [`SwitchVec::switch_stack`] migrates back
//! explicitly, truncating to the inline capacity.
//!
//! Heap allocation is fallible everywhere: a failed allocation reports
//! failure and leaves the container in the state it was in before the call,
//! contents and representation alike.

use vstd::prelude::*;

use crate::array::Array;

verus! {

/// The active representation: inline slots or a heap vector.
enum Inner<const N: usize, T> {
    Stack(Array<N, T>),
    Heap(Vec<T>),
}

/// A sequence container that starts inline and can migrate to the heap.
pub struct SwitchVec<const N: usize, T> {
    inner: Inner<N, T>,
}

impl<const N: usize, T> View for SwitchVec<N, T> {
    type V = Seq<T>;

    /// The sequence of elements, whichever representation holds them.
    closed spec fn view(&self) -> Seq<T> {
        match self.inner {
            Inner::Stack(a) => a@,
            Inner::Heap(v) => v@,
        }
    }
}

/// Relies on `Vec::capacity`: the number of elements the vector can hold
/// without reallocating, which is never below its length.
#[verifier::external_body]
fn vec_capacity<T>(v: &Vec<T>) -> (r: usize)
    ensures
        r >= v@.len(),
{
    v.capacity()
}

impl<const N: usize, T> SwitchVec<N, T> {
    /// An inline representation carries a well-formed buffer.
    pub closed spec fn wf(self) -> bool {
        match self.inner {
            Inner::Stack(a) => a.wf(),
            Inner::Heap(_) => true,
        }
    }

    /// Whether the heap representation is active.
    pub closed spec fn is_heap_spec(self) -> bool {
        self.inner is Heap
    }

    /// A well-formed inline container never holds more than the inline
    /// capacity.
    proof fn lemma_inline_len(&self)
        requires
            self.wf(),
            !self.is_heap_spec(),
        ensures
            self@.len() <= N,
    {
        match self.inner {
            Inner::Stack(a) => a.lemma_len_bounded(),
            Inner::Heap(_) => {}
        }
    }

    /// Create an empty, inline container.
    pub fn new() -> (r: Self)
        ensures
            r.wf(),
            r@ == Seq::<T>::empty(),
            !r.is_heap_spec(),
    {
        SwitchVec { inner: Inner::Stack(Array::new()) }
    }

    /// Wrap an existing heap vector.
    pub fn from_vec(vec: Vec<T>) -> (r: Self)
        ensures
            r.wf(),
            r@ == vec@,
            r.is_heap_spec(),
    {
        SwitchVec { inner: Inner::Heap(vec) }
    }

    /// Unwrap into the heap vector, or hand the container back unchanged if
    /// the inline representation is active.
    pub fn into_vec(self) -> (r: Result<Vec<T>, Self>)
        requires
            self.wf(),
        ensures
            self.is_heap_spec() ==> r is Ok && r->Ok_0@ == self@,
            !self.is_heap_spec() ==> r == Err::<Vec<T>, Self>(self),
    {
        match self.inner {
            Inner::Stack(a) => Err(SwitchVec { inner: Inner::Stack(a) }),
            Inner::Heap(v) => Ok(v),
        }
    }

    /// Wrap an existing inline buffer.
    pub fn from_array(array: Array<N, T>) -> (r: Self)
        requires
            array.wf(),
        ensures
            r.wf(),
            r@ == array@,
            !r.is_heap_spec(),
    {
        SwitchVec { inner: Inner::Stack(array) }
    }

    /// Unwrap into the inline buffer, or hand the container back unchanged
    /// if the heap representation is active.
    pub fn into_array(self) -> (r: Result<Array<N, T>, Self>)
        requires
            self.wf(),
        ensures
            !self.is_heap_spec() ==> r is Ok && r->Ok_0.wf() && r->Ok_0@ == self@,
            self.is_heap_spec() ==> r == Err::<Array<N, T>, Self>(self),
    {
        match self.inner {
            Inner::Stack(a) => Ok(a),
            Inner::Heap(v) => Err(SwitchVec { inner: Inner::Heap(v) }),
        }
    }

    /// The number of elements the active representation can hold without
    /// allocating: the inline capacity, or the heap vector's capacity.
    pub fn capacity(&self) -> (r: usize)
        requires
            self.wf(),
        ensures
            !self.is_heap_spec() ==> r == N,
            r >= self@.len(),
    {
        match &self.inner {
            Inner::Stack(a) => {
                proof {
                    a.lemma_len_bounded();
                }
                a.capacity()
            }
            Inner::Heap(v) => vec_capacity(v),
        }
    }

    /// The number of elements.
    pub fn len(&self) -> (r: usize)
        requires
            self.wf(),
        ensures
            r == self@.len(),
    {
        match &self.inner {
            Inner::Stack(a) => a.len(),
            Inner::Heap(v) => v.len(),
        }
    }

    /// Whether the container holds no elements.
    pub fn is_empty(&self) -> (r: bool)
        requires
            self.wf(),
        ensures
            r == (self@.len() == 0),
    {
        self.len() == 0
    }

    /// Whether the heap representation is active.
    pub fn is_heap(&self) -> (r: bool)
        ensures
            r == self.is_heap_spec(),
    {
        match &self.inner {
            Inner::Stack(_) => false,
            Inner::Heap(_) => true,
        }
    }

    /// A reference to the element at `index`.
    pub fn get(&self, index: usize) -> (r: &T)
        requires
            self.wf(),
            index < self@.len(),
        ensures
            *r == self@[index as int],
    {
        match &self.inner {
            Inner::Stack(a) => a.get(index),
            Inner::Heap(v) => &v[index],
        }
    }

    /// Replace the element at `index`, releasing the value previously there;
    /// the representation stays as it was.
    pub fn set_at(&mut self, index: usize, value: T)
        requires
            old(self).wf(),
            index < old(self)@.len(),
        ensures
            final(self).wf(),
            final(self)@ == old(self)@.update(index as int, value),
            final(self).is_heap_spec() == old(self).is_heap_spec(),
    {
        match &mut self.inner {
            Inner::Stack(a) => a.set_at(index, value),
            Inner::Heap(v) => {
                v[index] = value;
            }
        }
    }

    /// Remove all elements; the representation stays as it was.
    pub fn clear(&mut self)
        requires
            old(self).wf(),
        ensures
            final(self).wf(),
            final(self)@ == Seq::<T>::empty(),
            final(self).is_heap_spec() == old(self).is_heap_spec(),
    {
        match &mut self.inner {
            Inner::Stack(a) => a.clear(),
            Inner::Heap(v) => v.clear(),
        }
    }

    /// Migrate the contents to the heap, if not there already; reports
    /// whether the heap representation is now active.
    ///
    /// The heap buffer is allocated before any element moves, so a failed
    /// allocation returns `false` with the container exactly as it was.
    /// Calling this on a heap container is a no-op that returns `true`.
    pub fn switch_heap(&mut self) -> (r: bool)
        requires
            old(self).wf(),
        ensures
            final(self).wf(),
            final(self)@ == old(self)@,
            r == final(self).is_heap_spec(),
            old(self).is_heap_spec() ==> r && *final(self) == *old(self),
            !r ==> *final(self) == *old(self),
    {
        if self.is_heap() {
            return true;
        }
        let mut v: Vec<T> = Vec::new();
        match &mut self.inner {
            Inner::Stack(a) => {
                if v.try_reserve(a.len()).is_err() {
                    return false;
                }
                a.drain_into(&mut v);
            }
            Inner::Heap(_) => {
                proof {
                    assert(false);
                }
            }
        }
        self.inner = Inner::Heap(v);
        true
    }

    /// Migrate the contents to an inline buffer, truncating to the first `N`
    /// elements and releasing the rest; always returns `true`.
    ///
    /// Calling this on an inline container is a no-op.
    pub fn switch_stack(&mut self) -> (r: bool)
        requires
            old(self).wf(),
        ensures
            final(self).wf(),
            r,
            !final(self).is_heap_spec(),
            !old(self).is_heap_spec() ==> *final(self) == *old(self),
            old(self)@.len() <= N ==> final(self)@ == old(self)@,
            old(self)@.len() > N ==> final(self)@ == old(self)@.subrange(0, N as int),
    {
        if !self.is_heap() {
            proof {
                self.lemma_inline_len();
            }
            return true;
        }
        let mut v: Vec<T> = Vec::new();
        match &mut self.inner {
            Inner::Heap(h) => {
                core::mem::swap(&mut v, h);
            }
            Inner::Stack(_) => {
                proof {
                    assert(false);
                }
            }
        }
        v.truncate(N);
        let array = Array::<N, T>::from_parts(v);
        self.inner = Inner::Stack(array);
        true
    }

    /// Secure room for `additional` more elements, migrating to the heap if
    /// the inline capacity cannot hold them; reports success.
    ///
    /// When the inline capacity already suffices this cannot fail and is a
    /// no-op. When a migration is needed, the heap buffer is sized for the
    /// whole request in a single allocation before any element moves, so a
    /// failed call leaves the container exactly as it was: still inline,
    /// contents intact. On a heap container the buffer grows in place, and a
    /// failed call leaves the contents and the representation as they were.
    /// A request too large for `usize` is reported as a failure, like any
    /// other refused allocation.
    pub fn reserve(&mut self, additional: usize) -> (r: bool)
        requires
            old(self).wf(),
        ensures
            final(self).wf(),
            final(self)@ == old(self)@,
            !r ==> final(self).is_heap_spec() == old(self).is_heap_spec(),
            !r && !old(self).is_heap_spec() ==> *final(self) == *old(self),
            old(self).is_heap_spec() ==> final(self).is_heap_spec(),
            !old(self).is_heap_spec() && old(self)@.len() + additional <= N ==> r && *final(self)
                == *old(self),
            r && !final(self).is_heap_spec() ==> old(self)@.len() + additional <= N,
            r && !old(self).is_heap_spec() && old(self)@.len() + additional > N ==> final(self).is_heap_spec(),
    {
        if self.is_heap() {
            return match &mut self.inner {
                Inner::Heap(v) => v.try_reserve(additional).is_ok(),
                Inner::Stack(_) => vstd::pervasive::unreached(),
            };
        }
        let len = self.len();
        if additional <= N && len <= N - additional {
            return true;
        }
        if len > usize::MAX - additional {
            return false;
        }
        let mut v: Vec<T> = Vec::new();
        if v.try_reserve(len + additional).is_err() {
            return false;
        }
        match &mut self.inner {
            Inner::Stack(a) => {
                a.drain_into(&mut v);
            }
            Inner::Heap(_) => {
                proof {
                    assert(false);
                }
            }
        }
        self.inner = Inner::Heap(v);
        true
    }

    /// Append an element, handing it back if room could not be secured.
    ///
    /// An inline container with spare capacity cannot fail; failure is
    /// possible only when a heap allocation is needed and refused, and it
    /// leaves the container in the state it was in before the call.
    pub fn push(&mut self, value: T) -> (r: Result<(), T>)
        requires
            old(self).wf(),
        ensures
            final(self).wf(),
            r is Ok ==> final(self)@ == old(self)@.push(value),
            r is Err ==> r == Err::<(), T>(value) && final(self)@ == old(self)@ && final(self).is_heap_spec()
                == old(self).is_heap_spec(),
            r is Err && !old(self).is_heap_spec() ==> *final(self) == *old(self),
            !old(self).is_heap_spec() && old(self)@.len() < N ==> r is Ok && !final(self).is_heap_spec(),
            !old(self).is_heap_spec() && old(self)@.len() >= N && r is Ok ==> final(self).is_heap_spec(),
            old(self).is_heap_spec() ==> final(self).is_heap_spec(),
    {
        if !self.reserve(1) {
            return Err(value);
        }
        match &mut self.inner {
            Inner::Stack(a) => {
                a.push(value);
            }
            Inner::Heap(v) => {
                v.push(value);
            }
        }
        Ok(())
    }

    /// Remove and return the tail element, or `None` when empty; never
    /// allocates, and the representation stays as it was.
    pub fn pop(&mut self) -> (r: Option<T>)
        requires
            old(self).wf(),
        ensures
            final(self).wf(),
            final(self).is_heap_spec() == old(self).is_heap_spec(),
            old(self)@.len() == 0 ==> r is None && final(self)@ == old(self)@,
            old(self)@.len() > 0 ==> r == Some(old(self)@.last()) && final(self)@ == old(
                self,
            )@.drop_last(),
    {
        match &mut self.inner {
            Inner::Stack(a) => a.pop(),
            Inner::Heap(v) => v.pop(),
        }
    }

    /// Insert an element at `index`, shifting the elements after it toward
    /// the tail; hands the element back if room could not be secured, with
    /// the container left in the state it was in before the call.
    pub fn insert(&mut self, index: usize, element: T) -> (r: Result<(), T>)
        requires
            old(self).wf(),
            index <= old(self)@.len(),
        ensures
            final(self).wf(),
            r is Ok ==> final(self)@ == old(self)@.insert(index as int, element),
            r is Err ==> r == Err::<(), T>(element) && final(self)@ == old(self)@ && final(self).is_heap_spec()
                == old(self).is_heap_spec(),
            r is Err && !old(self).is_heap_spec() ==> *final(self) == *old(self),
            !old(self).is_heap_spec() && old(self)@.len() < N ==> r is Ok && !final(self).is_heap_spec(),
            !old(self).is_heap_spec() && old(self)@.len() >= N && r is Ok ==> final(self).is_heap_spec(),
            old(self).is_heap_spec() ==> final(self).is_heap_spec(),
    {
        if !self.reserve(1) {
            return Err(element);
        }
        match &mut self.inner {
            Inner::Stack(a) => {
                a.insert(index, element);
            }
            Inner::Heap(v) => {
                v.insert(index, element);
            }
        }
        Ok(())
    }

    /// Remove and return the element at `index`, shifting the elements after
    /// it toward the head, or `None` if `index` is out of bounds; never
    /// allocates, and the representation stays as it was.
    pub fn remove(&mut self, index: usize) -> (r: Option<T>)
        requires
            old(self).wf(),
        ensures
            final(self).wf(),
            final(self).is_heap_spec() == old(self).is_heap_spec(),
            index >= old(self)@.len() ==> r is None && final(self)@ == old(self)@,
            index < old(self)@.len() ==> r == Some(old(self)@[index as int]) && final(self)@ == old(
                self,
            )@.remove(index as int),
    {
        if index >= self.len() {
            return None;
        }
        match &mut self.inner {
            Inner::Stack(a) => Some(a.remove(index)),
            Inner::Heap(v) => Some(v.remove(index)),
        }
    }

    /// Remove and return the element at `index`, relocating the tail element
    /// into its place, or `None` if `index` is out of bounds; never
    /// allocates, and the representation stays as it was.
    pub fn swap_remove(&mut self, index: usize) -> (r: Option<T>)
        requires
            old(self).wf(),
        ensures
            final(self).wf(),
            final(self).is_heap_spec() == old(self).is_heap_spec(),
            index >= old(self)@.len() ==> r is None && final(self)@ == old(self)@,
            index < old(self)@.len() ==> r == Some(old(self)@[index as int]) && final(self)@ == old(
                self,
            )@.update(index as int, old(self)@.last()).drop_last(),
    {
        if index >= self.len() {
            return None;
        }
        match &mut self.inner {
            Inner::Stack(a) => Some(a.swap_remove(index)),
            Inner::Heap(v) => Some(v.swap_remove(index)),
        }
    }

    /// Consume the container into an iterator over its elements.
    pub fn into_iter(self) -> (r: IntoIter<N, T>)
        requires
            self.wf(),
        ensures
            r.wf(),
            r@ == self@,
    {
        match self.inner {
            Inner::Stack(a) => IntoIter { inner: IntoIterInner::Stack(a.into_iter()) },
            Inner::Heap(v) => IntoIter { inner: IntoIterInner::Heap(v) },
        }
    }
}

impl<const N: usize, T> Default for SwitchVec<N, T> {
    /// An empty, inline container.
    fn default() -> (r: Self)
        ensures
            r.wf(),
            r@ == Seq::<T>::empty(),
            !r.is_heap_spec(),
    {
        Self::new()
    }
}

/// The source a consuming iterator draws from.
enum IntoIterInner<const N: usize, T> {
    Stack(crate::array::IntoIter<N, T>),
    Heap(Vec<T>),
}

/// A consuming iterator over the elements of a [`SwitchVec`].
pub struct IntoIter<const N: usize, T> {
    inner: IntoIterInner<N, T>,
}

impl<const N: usize, T> View for IntoIter<N, T> {
    type V = Seq<T>;

    /// The sequence of values not yet yielded.
    closed spec fn view(&self) -> Seq<T> {
        match self.inner {
            IntoIterInner::Stack(it) => it@,
            IntoIterInner::Heap(v) => v@,
        }
    }
}

impl<const N: usize, T> IntoIter<N, T> {
    /// An inline source carries a well-formed iterator.
    pub closed spec fn wf(self) -> bool {
        match self.inner {
            IntoIterInner::Stack(it) => it.wf(),
            IntoIterInner::Heap(_) => true,
        }
    }

    /// Yield the next value from the front, or `None` when exhausted.
    pub fn next(&mut self) -> (r: Option<T>)
        requires
            old(self).wf(),
        ensures
            final(self).wf(),
            old(self)@.len() == 0 ==> r is None && final(self)@ == old(self)@,
            old(self)@.len() > 0 ==> r == Some(old(self)@.first()) && final(self)@ == old(
                self,
            )@.drop_first(),
    {
        match &mut self.inner {
            IntoIterInner::Stack(it) => it.next(),
            IntoIterInner::Heap(v) => {
                if v.len() == 0 {
                    None
                } else {
                    Some(v.remove(0))
                }
            }
        }
    }

    /// Yield the next value from the back, or `None` when exhausted.
    pub fn next_back(&mut self) -> (r: Option<T>)
        requires
            old(self).wf(),
        ensures
            final(self).wf(),
            old(self)@.len() == 0 ==> r is None && final(self)@ == old(self)@,
            old(self)@.len() > 0 ==> r == Some(old(self)@.last()) && final(self)@ == old(
                self,
            )@.drop_last(),
    {
        match &mut self.inner {
            IntoIterInner::Stack(it) => it.next_back(),
            IntoIterInner::Heap(v) => v.pop(),
        }
    }
}

} // verus!
