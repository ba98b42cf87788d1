//! Typed indices into the scene's resource arrays.
use core::marker::PhantomData;

use vstd::prelude::*;

verus! {

/// The index of a resource of kind `T` in its array.
#[derive(Debug)]
pub struct ResourceID<T> {
    pub index: usize,
    pub _marker: PhantomData<T>,
}

impl<T> Copy for ResourceID<T> {
}

impl<T> Clone for ResourceID<T> {
    fn clone(&self) -> (r: Self)
        ensures
            r == *self,
    {
        ResourceID { index: self.index, _marker: PhantomData }
    }
}

impl<T> PartialEq for ResourceID<T> {
    fn eq(&self, other: &Self) -> (r: bool) {
        self.index == other.index
    }
}

impl<T> vstd::std_specs::cmp::PartialEqSpecImpl for ResourceID<T> {
    open spec fn obeys_eq_spec() -> bool {
        true
    }

    open spec fn eq_spec(&self, other: &Self) -> bool {
        self.index == other.index
    }
}

impl<T> Eq for ResourceID<T> {
}

impl<T> ResourceID<T> {
    pub open spec fn spec_new(index: usize) -> Self {
        ResourceID { index, _marker: PhantomData }
    }

    pub fn new(index: usize) -> (r: Self)
        ensures
            r == Self::spec_new(index),
    {
        Self { index, _marker: PhantomData }
    }
}

/// Two ids of one kind are the same value exactly when their indices are.
pub proof fn law_resource_id_eq<T>(a: ResourceID<T>, b: ResourceID<T>)
    ensures
        (a == b) == (a.index == b.index),
{
    if a.index == b.index {
        assert(a._marker == b._marker);
    }
}

/// The index of a resource of kind `T`, as the first scene layout names it.
#[derive(Debug)]
pub struct ResourceHandle<T> {
    pub index: usize,
    pub _marker: PhantomData<T>,
}

impl<T> Copy for ResourceHandle<T> {
}

impl<T> Clone for ResourceHandle<T> {
    fn clone(&self) -> (r: Self)
        ensures
            r == *self,
    {
        ResourceHandle { index: self.index, _marker: PhantomData }
    }
}

impl<T> PartialEq for ResourceHandle<T> {
    fn eq(&self, other: &Self) -> (r: bool) {
        self.index == other.index
    }
}

impl<T> vstd::std_specs::cmp::PartialEqSpecImpl for ResourceHandle<T> {
    open spec fn obeys_eq_spec() -> bool {
        true
    }

    open spec fn eq_spec(&self, other: &Self) -> bool {
        self.index == other.index
    }
}

impl<T> Eq for ResourceHandle<T> {
}

impl<T> ResourceHandle<T> {
    pub fn new(index: usize) -> (r: Self)
        ensures
            r.index == index,
    {
        Self { index, _marker: PhantomData }
    }
}

} // verus!
