//! Collections that take links.
use vstd::prelude::*;
use crate::links::{
    Links, LinkResult, MaybeKeyed, maybe_keyed, continue_links, break_links, spec_continue,
    spec_break,
};

verus! {

/// Whether any link was offered; stops at the first.
#[derive(Debug, Clone, Copy, PartialEq, Eq, Structural)]
pub enum Linked {
    No,
    Yes,
}

impl Default for Linked {
    fn default() -> (r: Self)
        ensures
            r == Linked::No,
    {
        Linked::No
    }
}

impl<D> Links<D, Linked> for Linked {
    open spec fn spec_model(&self) -> Linked {
        *self
    }

    /// Records that a link came, and asks for no more.
    open spec fn spec_model_after(&self, target: D, key: Option<D>) -> Linked {
        Linked::Yes
    }

    open spec fn spec_answer(&self, target: D, key: Option<D>) -> LinkResult {
        spec_break()
    }

    open spec fn spec_can_push(&self, target: D, key: Option<D>) -> bool {
        true
    }

    fn push(&mut self, target: D, key: Option<D>) -> (r: LinkResult) {
        *self = Linked::Yes;
        break_links()
    }
}

impl<D> Links<D, Seq<MaybeKeyed<D, D>>> for Vec<MaybeKeyed<D, D>> {
    open spec fn spec_model(&self) -> Seq<MaybeKeyed<D, D>> {
        self@
    }

    /// Keeps every link, in order.
    open spec fn spec_model_after(&self, target: D, key: Option<D>) -> Seq<MaybeKeyed<D, D>> {
        self@.push(maybe_keyed(key, target))
    }

    open spec fn spec_answer(&self, target: D, key: Option<D>) -> LinkResult {
        spec_continue()
    }

    open spec fn spec_can_push(&self, target: D, key: Option<D>) -> bool {
        true
    }

    fn push(&mut self, target: D, key: Option<D>) -> (r: LinkResult) {
        self.push(MaybeKeyed::new(key, target));
        continue_links()
    }
}

impl<D> Links<D, Seq<(Option<D>, D)>> for Vec<(Option<D>, D)> {
    open spec fn spec_model(&self) -> Seq<(Option<D>, D)> {
        self@
    }

    /// Keeps every link as a pair of its key, if any, and its target.
    open spec fn spec_model_after(&self, target: D, key: Option<D>) -> Seq<(Option<D>, D)> {
        self@.push((key, target))
    }

    open spec fn spec_answer(&self, target: D, key: Option<D>) -> LinkResult {
        spec_continue()
    }

    open spec fn spec_can_push(&self, target: D, key: Option<D>) -> bool {
        true
    }

    fn push(&mut self, target: D, key: Option<D>) -> (r: LinkResult) {
        self.push((key, target));
        continue_links()
    }
}

impl<D> Links<D, Seq<(D, D)>> for Vec<(D, D)> {
    open spec fn spec_model(&self) -> Seq<(D, D)> {
        self@
    }

    /// Keeps the keyed links as pairs of key and target; drops the others.
    open spec fn spec_model_after(&self, target: D, key: Option<D>) -> Seq<(D, D)> {
        match key {
            Some(k) => self@.push((k, target)),
            None => self@,
        }
    }

    open spec fn spec_answer(&self, target: D, key: Option<D>) -> LinkResult {
        spec_continue()
    }

    open spec fn spec_can_push(&self, target: D, key: Option<D>) -> bool {
        true
    }

    fn push(&mut self, target: D, key: Option<D>) -> (r: LinkResult) {
        match key {
            Some(key) => {
                self.push((key, target));
            },
            None => {},
        }
        continue_links()
    }
}

impl<D> Links<D, Seq<D>> for Vec<D> {
    open spec fn spec_model(&self) -> Seq<D> {
        self@
    }

    /// Keeps the targets, in order.
    open spec fn spec_model_after(&self, target: D, key: Option<D>) -> Seq<D> {
        self@.push(target)
    }

    open spec fn spec_answer(&self, target: D, key: Option<D>) -> LinkResult {
        spec_continue()
    }

    open spec fn spec_can_push(&self, target: D, key: Option<D>) -> bool {
        true
    }

    fn push(&mut self, target: D, key: Option<D>) -> (r: LinkResult) {
        self.push(target);
        continue_links()
    }
}

impl<D> Links<D, Option<(D, D)>> for Option<(D, D)> {
    open spec fn spec_model(&self) -> Option<(D, D)> {
        *self
    }

    /// Keeps the first link offered, when it has a key; asks for no more.
    open spec fn spec_model_after(&self, target: D, key: Option<D>) -> Option<(D, D)> {
        match (*self, key) {
            (None, Some(k)) => Some((k, target)),
            _ => *self,
        }
    }

    open spec fn spec_answer(&self, target: D, key: Option<D>) -> LinkResult {
        spec_break()
    }

    open spec fn spec_can_push(&self, target: D, key: Option<D>) -> bool {
        true
    }

    fn push(&mut self, target: D, key: Option<D>) -> (r: LinkResult) {
        if self.is_some() {
            return break_links();
        }
        match key {
            Some(key) => {
                *self = Some((key, target));
            },
            None => {},
        }
        break_links()
    }
}

impl<D> Links<D, Option<(Option<D>, D)>> for Option<(Option<D>, D)> {
    open spec fn spec_model(&self) -> Option<(Option<D>, D)> {
        *self
    }

    /// Keeps the first link offered; asks for no more.
    open spec fn spec_model_after(&self, target: D, key: Option<D>) -> Option<(Option<D>, D)> {
        match *self {
            None => Some((key, target)),
            Some(_) => *self,
        }
    }

    open spec fn spec_answer(&self, target: D, key: Option<D>) -> LinkResult {
        spec_break()
    }

    open spec fn spec_can_push(&self, target: D, key: Option<D>) -> bool {
        true
    }

    fn push(&mut self, target: D, key: Option<D>) -> (r: LinkResult) {
        if self.is_none() {
            *self = Some((key, target));
        }
        break_links()
    }
}

impl<D> Links<D, Option<D>> for Option<D> {
    open spec fn spec_model(&self) -> Option<D> {
        *self
    }

    /// Keeps the target of the first link offered; asks for no more.
    open spec fn spec_model_after(&self, target: D, key: Option<D>) -> Option<D> {
        match *self {
            None => Some(target),
            Some(_) => *self,
        }
    }

    open spec fn spec_answer(&self, target: D, key: Option<D>) -> LinkResult {
        spec_break()
    }

    open spec fn spec_can_push(&self, target: D, key: Option<D>) -> bool {
        true
    }

    fn push(&mut self, target: D, key: Option<D>) -> (r: LinkResult) {
        if self.is_none() {
            *self = Some(target);
        }
        break_links()
    }
}

} // verus!
