//! Whether a value was provided.
use vstd::prelude::*;

verus! {

/// Tells whether something was provided.
pub trait Provided {
    /// Whether it was provided; `true` unless the implementation says otherwise.
    spec fn spec_was_provided(&self) -> bool;

    fn was_provided(&self) -> (r: bool)
        ensures
            r == self.spec_was_provided(),
    ;

    /// Checks that it was provided; it must have been.
    fn assert_provided(&self)
        requires
            self.spec_was_provided(),
    {
        let p = self.was_provided();
        assert(p);
    }

    /// Checks that it was provided; it must have been.
    fn debug_assert_provided(&self)
        requires
            self.spec_was_provided(),
    {
        let p = self.was_provided();
        assert(p);
    }
}

/// The default answer: nothing was provided.
pub struct DefaultImpl;

impl Provided for DefaultImpl {
    open spec fn spec_was_provided(&self) -> bool {
        false
    }

    fn was_provided(&self) -> (r: bool) {
        false
    }
}

impl Provided for () {
    open spec fn spec_was_provided(&self) -> bool {
        true
    }

    fn was_provided(&self) -> (r: bool) {
        true
    }
}

impl Provided for bool {
    open spec fn spec_was_provided(&self) -> bool {
        *self
    }

    fn was_provided(&self) -> (r: bool) {
        *self
    }
}

} // verus!
