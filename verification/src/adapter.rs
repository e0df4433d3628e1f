//! Adapters: data whose values are given by another type's rule.
use vstd::prelude::*;
use core::marker::PhantomData;
use crate::data::{Data, ValueView, Visitor, visit_all};

verus! {

/// A rule that tells what values a `T` provides.
pub trait Adapter<T> {
    /// The values that `data` provides under this rule.
    spec fn spec_adapted_values(data: &T) -> Seq<ValueView>;

    /// Gives the values that `data` provides under this rule, in order, to `visitor`.
    fn query<V: Visitor>(data: &T, visitor: &mut V)
        ensures
            final(visitor).deep_view() == visit_all::<V>(
                old(visitor).deep_view(),
                Self::spec_adapted_values(data),
            ),
    ;
}

/// A value of type `T` seen as data under the rule `A`.
#[derive(Debug)]
pub struct Adapted<T, A = ()> {
    data: T,
    adapter: PhantomData<A>,
}

impl<T, A> Adapted<T, A> {
    /// The value it holds.
    pub closed spec fn spec_inner(&self) -> T {
        self.data
    }

    /// `data` under the rule `A`.
    pub fn new(data: T) -> (r: Self)
        ensures
            r.spec_inner() == data,
    {
        Adapted { data, adapter: PhantomData }
    }

    /// The value it holds.
    pub fn into_inner(self) -> (r: T)
        ensures
            r == self.spec_inner(),
    {
        self.data
    }

    /// A reference to the value it holds.
    pub fn as_ref(&self) -> (r: &T)
        ensures
            *r == self.spec_inner(),
    {
        &self.data
    }
}

impl<T, A> core::ops::Deref for Adapted<T, A> {
    type Target = T;

    /// The value it holds.
    fn deref(&self) -> (r: &T)
        ensures
            *r == self.spec_inner(),
    {
        &self.data
    }
}

impl<T: Clone, A> Clone for Adapted<T, A> {
    fn clone(&self) -> (r: Self) {
        Adapted { data: self.data.clone(), adapter: PhantomData }
    }
}

impl<T: Default, A> Default for Adapted<T, A> {
    fn default() -> (r: Self) {
        Adapted { data: T::default(), adapter: PhantomData }
    }
}

impl<T, A> From<T> for Adapted<T, A> {
    fn from(data: T) -> (r: Self)
        ensures
            r.spec_inner() == data,
    {
        Adapted { data, adapter: PhantomData }
    }
}

impl<T, A> vstd::std_specs::convert::FromSpecImpl<T> for Adapted<T, A> {
    open spec fn obeys_from_spec() -> bool {
        true
    }

    closed spec fn from_spec(v: T) -> Self {
        Adapted { data: v, adapter: PhantomData }
    }
}

impl<T, A: Adapter<T>> Data for Adapted<T, A> {
    /// What the rule says the value provides.
    open spec fn spec_values(&self) -> Seq<ValueView> {
        A::spec_adapted_values(&self.spec_inner())
    }

    fn query<V: Visitor>(&self, visitor: &mut V) {
        A::query(&self.data, visitor);
    }
}

impl<T: Data> Adapter<T> for () {
    /// The value provides what it provides as data.
    open spec fn spec_adapted_values(data: &T) -> Seq<ValueView> {
        data.spec_values()
    }

    fn query<V: Visitor>(data: &T, visitor: &mut V) {
        data.query(visitor);
    }
}

/// The rule that a box provides what it points to.
#[derive(Debug, Clone, Copy)]
pub struct DerefAdapter;

impl<D: Data + ?Sized> Adapter<Box<D>> for DerefAdapter {
    open spec fn spec_adapted_values(data: &Box<D>) -> Seq<ValueView> {
        (**data).spec_values()
    }

    fn query<V: Visitor>(data: &Box<D>, visitor: &mut V) {
        (**data).query(visitor);
    }
}

} // verus!
