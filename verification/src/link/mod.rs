//! Single links: what stands in for a missing key, optional parts and links without a key.
use vstd::prelude::*;
use core::convert::Infallible;
use crate::data::{Data, Value, ValueView, Visitor, lemma_visit_one};
use crate::links::Link;

pub mod builder;

verus! {

/// Nothing at all.
#[derive(Debug, Clone, Copy, PartialEq, Eq, Structural, PartialOrd, Ord, Hash)]
pub struct Nothing;

/// A part that is present, or absent with a reason of type `N`.
#[derive(Debug, Clone, Copy, PartialEq, Eq, PartialOrd, Ord, Hash)]
pub enum Optional<T, N = Nothing> {
    Present(T),
    Absent(N),
}

impl<T> Optional<T, Infallible> {
    /// A part that is always present.
    pub fn always(key: T) -> (r: Self)
        ensures
            r == Optional::<T, Infallible>::Present(key),
    {
        Optional::Present(key)
    }
}

impl Optional<Infallible, Nothing> {
    /// A part that is never present.
    pub fn never() -> (r: Self)
        ensures
            r == Optional::<Infallible, Nothing>::Absent(Nothing),
    {
        Optional::Absent(Nothing)
    }
}

impl<T> From<Option<T>> for Optional<T, Nothing> {
    /// `Some` is present; `None` is absent.
    fn from(option: Option<T>) -> (r: Self) {
        match option {
            Some(key) => Optional::Present(key),
            None => Optional::Absent(Nothing),
        }
    }
}

impl<T> vstd::std_specs::convert::FromSpecImpl<Option<T>> for Optional<T, Nothing> {
    open spec fn obeys_from_spec() -> bool {
        true
    }

    open spec fn from_spec(v: Option<T>) -> Self {
        optional_of(v)
    }
}

impl<T, N> From<Optional<T, N>> for Option<T> {
    /// A present part is `Some`; an absent one is `None`.
    fn from(maybe: Optional<T, N>) -> (r: Self) {
        match maybe {
            Optional::Present(key) => Some(key),
            Optional::Absent(_) => None,
        }
    }
}

impl<T, N> vstd::std_specs::convert::FromSpecImpl<Optional<T, N>> for Option<T> {
    open spec fn obeys_from_spec() -> bool {
        true
    }

    open spec fn from_spec(v: Optional<T, N>) -> Self {
        option_of(v)
    }
}

/// What `From<Option<T>>` makes of an option.
pub open spec fn optional_of<T>(option: Option<T>) -> Optional<T, Nothing> {
    match option {
        Some(key) => Optional::Present(key),
        None => Optional::Absent(Nothing),
    }
}

/// What `From<Optional<T, N>>` makes of an optional part.
pub open spec fn option_of<T, N>(maybe: Optional<T, N>) -> Option<T> {
    match maybe {
        Optional::Present(key) => Some(key),
        Optional::Absent(_) => None,
    }
}

/// Turning an option into an optional part and back gives the option again; turning
/// an optional part whose reason is `Nothing` into an option and back gives the part again.
pub proof fn lemma_optional_roundtrip<T>(option: Option<T>, maybe: Optional<T, Nothing>)
    ensures
        option_of(optional_of(option)) == option,
        optional_of(option_of(maybe)) == maybe,
{
    if let Optional::Absent(reason) = maybe {
        let Nothing = reason;
        assert(reason == Nothing);
    }
}

/// The key of a link that has none; as data it provides the text "NoKey".
#[derive(Debug, Default, Clone, Copy)]
pub struct NoKey;

impl Data for NoKey {
    open spec fn spec_values(&self) -> Seq<ValueView> {
        seq![ValueView::Str("NoKey"@)]
    }

    fn query<V: Visitor>(&self, visitor: &mut V) {
        let value = Value::Str("NoKey".to_owned());
        proof {
            assert(value@ == ValueView::Str("NoKey"@));
        }
        visitor.visit(value);
        proof {
            lemma_visit_one::<V>(old(visitor).deep_view(), ValueView::Str("NoKey"@));
        }
    }
}

/// A link to a target, without a key.
#[derive(Debug, Clone, Copy, PartialEq, Eq, PartialOrd, Ord, Hash)]
pub struct Unkeyed<T>(pub T);

impl<T: Data> Link for Unkeyed<T> {
    type Key = T;
    type Target = T;

    open spec fn spec_key(&self) -> Option<T> {
        None
    }

    open spec fn spec_target(&self) -> T {
        self.0
    }

    fn key(&self) -> (r: Option<&T>) {
        None
    }

    fn target(&self) -> (r: &T) {
        &self.0
    }

    fn into_parts(self) -> (r: (Option<T>, T)) {
        (None, self.0)
    }
}

} // verus!
