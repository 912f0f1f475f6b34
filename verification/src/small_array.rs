use std::ops::{Deref, DerefMut, Index, IndexMut};
use vstd::prelude::*;

verus! {

/// A stack of `N` elements at most, kept in place: the first `count` slots
/// of `data` are its elements, from the bottom up.
pub struct SmallArray<const N: usize, T> {
    pub data: [T; N],
    pub count: usize,
}

impl<const N: usize, T> View for SmallArray<N, T> {
    type V = Seq<T>;

    open spec fn view(&self) -> Seq<T> {
        self.data@.subrange(0, self.count as int)
    }
}

impl<const N: usize, T: Copy + Default> Default for SmallArray<N, T> {
    fn default() -> (a: Self)
        ensures
            a.wf(),
            a.count == 0,
            a@ == Seq::<T>::empty(),
    {
        Self { data: [T::default();N], count: 0 }
    }
}

impl<const N: usize, T> SmallArray<N, T> {
    /// No more elements are counted than there are slots.
    pub open spec fn wf(&self) -> bool {
        self.count <= N
    }

    /// An empty stack.
    pub fn new() -> (a: Self) where T: Copy + Default
        ensures
            a.wf(),
            a.count == 0,
            a@ == Seq::<T>::empty(),
    {
        Self::default()
    }

    /// Puts `elem` on top. There must be a free slot for it.
    pub fn push(&mut self, elem: T)
        requires
            old(self).count < N,
        ensures
            final(self).wf(),
            final(self).count == old(self).count + 1,
            final(self)@ == old(self)@.push(elem),
            final(self).data@ == old(self).data@.update(old(self).count as int, elem),
    {
        self.data[self.count] = elem;
        self.count += 1;
    }

    /// Forgets all elements; the slots keep what they hold.
    pub fn clear(&mut self)
        ensures
            final(self).wf(),
            final(self).count == 0,
            final(self).data == old(self).data,
            final(self)@ == Seq::<T>::empty(),
    {
        self.count = 0;
    }

    pub fn len(&self) -> (n: usize)
        ensures
            n == self.count,
            self.wf() ==> n == self@.len(),
    {
        self.count
    }

    pub fn is_empty(&self) -> (b: bool)
        ensures
            b == (self.count == 0),
            self.wf() ==> b == (self@.len() == 0),
    {
        self.count == 0
    }
}

/// Any of the `N` slots can be read, whether it holds an element or not.
impl<const N: usize, T> vstd::std_specs::core::IndexSpecImpl<usize> for SmallArray<N, T> {
    open spec fn index_req(&self, index: &usize) -> bool {
        *index < N
    }
}

impl<const N: usize, T> Index<usize> for SmallArray<N, T> {
    type Output = T;

    fn index(&self, i: usize) -> (elem: &T)
        ensures
            *elem == self.data@[i as int],
    {
        &self.data[i]
    }
}

impl<const N: usize, T> IndexMut<usize> for SmallArray<N, T> {
    fn index_mut(&mut self, i: usize) -> (elem: &mut T)
        requires
            i < N,
        ensures
            *elem == old(self).data@[i as int],
            final(self).count == old(self).count,
            final(self).data@ == old(self).data@.update(i as int, *final(elem)),
    {
        &mut self.data[i]
    }
}

impl<const N: usize, T> Deref for SmallArray<N, T> {
    type Target = [T; N];

    fn deref(&self) -> (slots: &[T; N])
        ensures
            *slots == self.data,
    {
        &self.data
    }
}

impl<const N: usize, T> DerefMut for SmallArray<N, T> {
    fn deref_mut(&mut self) -> (slots: &mut [T; N])
        ensures
            *slots == old(self).data,
            final(self).count == old(self).count,
            final(self).data == *final(slots),
    {
        &mut self.data
    }
}

} // verus!
