//! Pools of values that are named by small handles.

use std::marker::PhantomData;
use vstd::prelude::*;

verus! {

/// A handle for a value of a [`Pool`]: the place of the value in it.
pub struct PoolRef<T> {
    pub index: usize,
    pub _marker: PhantomData<T>,
}

impl<T> Clone for PoolRef<T> {
    fn clone(&self) -> (r: Self)
        ensures
            r == *self,
    {
        *self
    }
}

impl<T> Copy for PoolRef<T> {

}

impl<T> PoolRef<T> {
    /// Whether the two handles name the same place.
    pub fn same(&self, other: &PoolRef<T>) -> (r: bool)
        ensures
            r == (self.index == other.index),
            r == (*self == *other),
    {
        self.index == other.index
    }
}

/// Values that are added one by one and stay where they are. A value is
/// named by the handle that [`Pool::add`] gave for it.
pub struct Pool<T> {
    pub values: Vec<T>,
    pub current_index: usize,
}

impl<T> View for Pool<T> {
    type V = Seq<T>;

    open spec fn view(&self) -> Seq<T> {
        self.values@
    }
}

impl<T> Pool<T> {
    /// The index of the next handle is the number of values.
    pub open spec fn wf(&self) -> bool {
        self.current_index == self.values.len()
    }

    /// Whether `pool_ref` names a value of this pool.
    pub open spec fn has(&self, pool_ref: PoolRef<T>) -> bool {
        pool_ref.index < self.values.len()
    }

    pub fn new() -> (r: Self)
        ensures
            r.wf(),
            r@ == Seq::<T>::empty(),
    {
        Self { values: Vec::new(), current_index: 0 }
    }

    /// The number of values.
    pub fn len(&self) -> (r: usize)
        ensures
            r == self@.len(),
    {
        self.values.len()
    }

    /// Adds a value and gives the handle for it.
    pub fn add(&mut self, t: T) -> (pool_ref: PoolRef<T>)
        requires
            old(self).wf(),
            old(self)@.len() < usize::MAX,
        ensures
            final(self).wf(),
            final(self)@ == old(self)@.push(t),
            pool_ref.index == old(self)@.len(),
    {
        let pool_ref = PoolRef { index: self.current_index, _marker: PhantomData };
        self.current_index = self.current_index + 1;
        self.values.push(t);
        pool_ref
    }

    /// Adds a value if there is room for another one.
    pub fn try_add(&mut self, t: T) -> (r: Option<PoolRef<T>>)
        requires
            old(self).wf(),
        ensures
            final(self).wf(),
            match r {
                Some(pool_ref) => {
                    &&& old(self)@.len() < usize::MAX
                    &&& final(self)@ == old(self)@.push(t)
                    &&& pool_ref.index == old(self)@.len()
                },
                None => old(self)@.len() == usize::MAX && final(self)@ == old(self)@,
            },
    {
        if self.values.len() < usize::MAX {
            Some(self.add(t))
        } else {
            None
        }
    }

    pub fn get(&self, pool_ref: PoolRef<T>) -> (r: &T)
        requires
            self.has(pool_ref),
        ensures
            *r == self@[pool_ref.index as int],
    {
        &self.values[pool_ref.index]
    }

    pub fn get_mut(&mut self, pool_ref: PoolRef<T>) -> (r: &mut T)
        requires
            old(self).has(pool_ref),
        ensures
            *r == old(self)@[pool_ref.index as int],
            final(self)@ == old(self)@.update(pool_ref.index as int, *final(r)),
            final(self).current_index == old(self).current_index,
    {
        &mut self.values[pool_ref.index]
    }

    /// Puts `t` in the place that `pool_ref` names.
    pub fn set(&mut self, pool_ref: PoolRef<T>, t: T)
        requires
            old(self).has(pool_ref),
        ensures
            final(self)@ == old(self)@.update(pool_ref.index as int, t),
            final(self).current_index == old(self).current_index,
    {
        self.values.set(pool_ref.index, t);
    }

    /// The value that `pool_ref` names, if it names one of this pool.
    pub fn try_get(&self, pool_ref: PoolRef<T>) -> (r: Option<&T>)
        ensures
            r == if self.has(pool_ref) {
                Some(&self@[pool_ref.index as int])
            } else {
                None
            },
    {
        if pool_ref.index < self.values.len() {
            Some(&self.values[pool_ref.index])
        } else {
            None
        }
    }

    /// The values in the order in which they were added.
    pub fn iter(&self) -> (r: &Vec<T>)
        ensures
            r@ == self@,
    {
        &self.values
    }

    /// The values in the order in which they were added, to be changed in
    /// place.
    pub fn iter_mut(&mut self) -> (r: &mut Vec<T>)
        ensures
            *r == old(self).values,
            final(self).values == *final(r),
            final(self).current_index == old(self).current_index,
    {
        &mut self.values
    }

    /// The handle of the value at place `index`.
    pub fn ref_at(&self, index: usize) -> (r: PoolRef<T>)
        ensures
            r.index == index,
    {
        PoolRef { index, _marker: PhantomData }
    }
}

} // verus!
