//! The generic node wrapper: a payload paired with bookkeeping data (here
//! always the source span the payload was parsed from).

use vstd::prelude::*;

verus! {

/// A payload of kind `T` paired with common bookkeeping data of kind `C`.
#[derive(Debug, Clone)]
pub struct Node<C, T> {
    pub common: C,
    pub data: T,
}

impl<C, T> Node<C, T> {
    pub fn new(common: C, data: T) -> (r: Self)
        ensures
            r.common == common,
            r.data == data,
    {
        Self { common, data }
    }

    pub fn get_common(&self) -> (r: &C)
        ensures
            *r == self.common,
    {
        &self.common
    }

    pub fn get_data(&self) -> (r: &T)
        ensures
            *r == self.data,
    {
        &self.data
    }

    pub fn get_common_mut(&mut self) -> (r: &mut C)
        ensures
            *r == old(self).common,
            final(self).common == *final(r),
            final(self).data == old(self).data,
    {
        &mut self.common
    }

    pub fn get_data_mut(&mut self) -> (r: &mut T)
        ensures
            *r == old(self).data,
            final(self).data == *final(r),
            final(self).common == old(self).common,
    {
        &mut self.data
    }
}

} // verus!
