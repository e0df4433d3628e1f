//! Receivers seen through their erased form.
use vstd::prelude::*;
use core::any::TypeId;
use crate::query::receiver::{ErasedReceiver, Receiver};
use crate::query::filter::TypeFilter;
use crate::rr::typeset::TypeSet;

verus! {

/// The set of the types that an erased receiver passes on.
pub struct ErasedAccepting<'r, R>(pub &'r ErasedReceiver<R>);

impl<'r, R> TypeSet for ErasedAccepting<'r, R> {
    open spec fn spec_contains(&self, id: TypeId) -> bool {
        self.0.spec_accepting().allows(id)
    }

    fn contains_id(&self, type_id: TypeId) -> (r: bool) {
        let r = self.0.accepts_type_id(type_id);
        assert(r == self.spec_contains(type_id));
        r
    }
}

/// Erasure of requests: a receiver is taken behind the filter of the types it wants,
/// and what it wants is read back from that erased form.
pub struct Erased;

impl Erased {
    /// The erased receiver for `request`.
    pub fn get_receiver<R: Receiver>(request: R) -> (r: ErasedReceiver<R>)
        ensures
            r.spec_receiver() is None ==> r.spec_accepting() is Any,
            r.spec_receiver() matches Some(x) ==> x == request,
            exists|f: R::Accepting|
                #![trigger f.spec_is_empty()]
                {
                    &&& (r.spec_receiver() is None <==> f.spec_is_empty())
                    &&& (f.spec_is_empty() ==> forall|id: TypeId| !#[trigger] f.spec_accepts(id))
                    &&& (r.spec_receiver() is Some ==> forall|id: TypeId|
                        #[trigger] r.spec_accepting().allows(id) == f.spec_accepts(id))
                },
    {
        ErasedReceiver::new(request)
    }

    /// The set of the types that `receiver` passes on.
    pub fn get_requesting<'r, R>(receiver: &'r ErasedReceiver<R>) -> (r: ErasedAccepting<'r, R>)
        ensures
            r.0 == receiver,
            forall|id: TypeId| #[trigger] r.spec_contains(id) == receiver.spec_accepting().allows(id),
    {
        ErasedAccepting(receiver)
    }
}

} // verus!
