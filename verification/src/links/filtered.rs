//! A collection that takes only the links a selector selects.
use vstd::prelude::*;
use crate::data::{Data, ValueView};
use crate::links::{Links, LinkResult, Link, MaybeKeyed, continue_links, spec_continue};
use crate::query::selectors::{LinkSelector, link_selects, link_undecided};

verus! {

/// The values of an optional key.
pub open spec fn optional_values<D: Data>(key: Option<D>) -> Option<Seq<ValueView>> {
    match key {
        Some(k) => Some(k.spec_values()),
        None => None,
    }
}

/// Passes on to `inner` only the links that `selector` selects.
#[derive(Debug)]
pub struct Filtered<'s, L> {
    selector: &'s LinkSelector,
    inner: L,
}

impl<'s, L> Filtered<'s, L> {
    /// The selector it applies.
    pub closed spec fn spec_selector(&self) -> LinkSelector {
        *self.selector
    }

    /// The collection it passes links on to.
    pub closed spec fn spec_inner(&self) -> L {
        self.inner
    }

    /// Passes on to `inner` the links that `selector` selects.
    pub fn new(selector: &'s LinkSelector, inner: L) -> (r: Self)
        ensures
            r.spec_selector() == *selector,
            r.spec_inner() == inner,
    {
        Filtered { selector, inner }
    }

    /// The collection it passed links on to.
    pub fn into_inner(self) -> (r: L)
        ensures
            r == self.spec_inner(),
    {
        self.inner
    }
}

impl<'s, D: Data, M, L: Links<D, M>> Links<D, M> for Filtered<'s, L> {
    /// What the inner collection holds.
    open spec fn spec_model(&self) -> M {
        self.spec_inner().spec_model()
    }

    /// A selected link goes to the inner collection; another is dropped.
    open spec fn spec_model_after(&self, target: D, key: Option<D>) -> M {
        if link_selects(self.spec_selector()@, optional_values(key), target.spec_values()) {
            self.spec_inner().spec_model_after(target, key)
        } else {
            self.spec_inner().spec_model()
        }
    }

    /// The inner collection answers for a selected link; for another, more links are
    /// asked for.
    open spec fn spec_answer(&self, target: D, key: Option<D>) -> LinkResult {
        if link_selects(self.spec_selector()@, optional_values(key), target.spec_values()) {
            self.spec_inner().spec_answer(target, key)
        } else {
            spec_continue()
        }
    }

    /// Deciding the selector must not reach an undecided condition, and a selected link
    /// must be one the inner collection takes.
    open spec fn spec_can_push(&self, target: D, key: Option<D>) -> bool {
        let s = self.spec_selector()@;
        &&& !link_undecided(s, optional_values(key), target.spec_values())
        &&& link_selects(s, optional_values(key), target.spec_values()) ==> self.spec_inner().spec_can_push(
            target,
            key,
        )
    }

    fn push(&mut self, target: D, key: Option<D>) -> (r: LinkResult)
        ensures
            final(self).spec_selector() == old(self).spec_selector(),
    {
        let link = MaybeKeyed::new(key, target);
        if crate::query::selectors::Selector::selects(self.selector, &link) {
            let (key, target) = link.into_parts();
            self.inner.push(target, key)
        } else {
            continue_links()
        }
    }
}

} // verus!
