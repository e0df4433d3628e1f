//! Receivers: what takes the values that data provides.
use vstd::prelude::*;
use crate::query::filter::{Any, AnyOf, Only, TypeFilter, ValidErasedFilter, ErasedFilter, StringLike, BytesLike, string_like, bytes_like};

verus! {

/// Takes the values that a piece of data provides, one method per kind of value.
///
/// Every method does nothing unless the receiver overrides it. Floating-point values
/// are not received here.
pub trait Receiver {
    /// The filter of the types that the receiver wants.
    type Accepting: TypeFilter;

    fn bool(&mut self, value: bool) {
    }

    fn i8(&mut self, value: i8) {
    }

    fn u8(&mut self, value: u8) {
    }

    fn i16(&mut self, value: i16) {
    }

    fn u16(&mut self, value: u16) {
    }

    fn i32(&mut self, value: i32) {
    }

    fn u32(&mut self, value: u32) {
    }

    fn i64(&mut self, value: i64) {
    }

    fn u64(&mut self, value: u64) {
    }

    fn i128(&mut self, value: i128) {
    }

    fn u128(&mut self, value: u128) {
    }

    fn char(&mut self, value: char) {
    }

    fn str(&mut self, value: &str) {
    }

    /// Takes an owned string; by default passes it on as a borrowed one.
    fn str_owned(&mut self, value: String) {
        self.str(value.as_str());
    }

    fn bytes(&mut self, value: &[u8]) {
    }

    /// Takes owned bytes; by default passes them on as borrowed ones.
    fn bytes_owned(&mut self, value: Vec<u8>) {
        self.bytes(value.as_slice());
    }

    /// The filter of the types that the receiver wants.
    fn accepting() -> Self::Accepting;
}

impl Receiver for Option<bool> {
    type Accepting = Only<bool>;

    /// Keeps the last value received.
    fn bool(&mut self, value: bool)
        ensures
            *final(self) == Some(value),
    {
        *self = Some(value);
    }

    fn accepting() -> (r: Only<bool>) {
        Only::new()
    }
}

impl Receiver for Option<i8> {
    type Accepting = Only<i8>;

    /// Keeps the last value received.
    fn i8(&mut self, value: i8)
        ensures
            *final(self) == Some(value),
    {
        *self = Some(value);
    }

    fn accepting() -> (r: Only<i8>) {
        Only::new()
    }
}

impl Receiver for Option<u8> {
    type Accepting = Only<u8>;

    /// Keeps the last value received.
    fn u8(&mut self, value: u8)
        ensures
            *final(self) == Some(value),
    {
        *self = Some(value);
    }

    fn accepting() -> (r: Only<u8>) {
        Only::new()
    }
}

impl Receiver for Option<i16> {
    type Accepting = Only<i16>;

    /// Keeps the last value received.
    fn i16(&mut self, value: i16)
        ensures
            *final(self) == Some(value),
    {
        *self = Some(value);
    }

    fn accepting() -> (r: Only<i16>) {
        Only::new()
    }
}

impl Receiver for Option<u16> {
    type Accepting = Only<u16>;

    /// Keeps the last value received.
    fn u16(&mut self, value: u16)
        ensures
            *final(self) == Some(value),
    {
        *self = Some(value);
    }

    fn accepting() -> (r: Only<u16>) {
        Only::new()
    }
}

impl Receiver for Option<i32> {
    type Accepting = Only<i32>;

    /// Keeps the last value received.
    fn i32(&mut self, value: i32)
        ensures
            *final(self) == Some(value),
    {
        *self = Some(value);
    }

    fn accepting() -> (r: Only<i32>) {
        Only::new()
    }
}

impl Receiver for Option<u32> {
    type Accepting = Only<u32>;

    /// Keeps the last value received.
    fn u32(&mut self, value: u32)
        ensures
            *final(self) == Some(value),
    {
        *self = Some(value);
    }

    fn accepting() -> (r: Only<u32>) {
        Only::new()
    }
}

impl Receiver for Option<i64> {
    type Accepting = Only<i64>;

    /// Keeps the last value received.
    fn i64(&mut self, value: i64)
        ensures
            *final(self) == Some(value),
    {
        *self = Some(value);
    }

    fn accepting() -> (r: Only<i64>) {
        Only::new()
    }
}

impl Receiver for Option<u64> {
    type Accepting = Only<u64>;

    /// Keeps the last value received.
    fn u64(&mut self, value: u64)
        ensures
            *final(self) == Some(value),
    {
        *self = Some(value);
    }

    fn accepting() -> (r: Only<u64>) {
        Only::new()
    }
}

impl Receiver for Option<i128> {
    type Accepting = Only<i128>;

    /// Keeps the last value received.
    fn i128(&mut self, value: i128)
        ensures
            *final(self) == Some(value),
    {
        *self = Some(value);
    }

    fn accepting() -> (r: Only<i128>) {
        Only::new()
    }
}

impl Receiver for Option<u128> {
    type Accepting = Only<u128>;

    /// Keeps the last value received.
    fn u128(&mut self, value: u128)
        ensures
            *final(self) == Some(value),
    {
        *self = Some(value);
    }

    fn accepting() -> (r: Only<u128>) {
        Only::new()
    }
}

impl Receiver for Option<char> {
    type Accepting = Only<char>;

    /// Keeps the last value received.
    fn char(&mut self, value: char)
        ensures
            *final(self) == Some(value),
    {
        *self = Some(value);
    }

    fn accepting() -> (r: Only<char>) {
        Only::new()
    }
}

impl Receiver for Option<String> {
    type Accepting = StringLike;

    /// Keeps a copy of the last string received.
    fn str(&mut self, value: &str)
        ensures
            *final(self) matches Some(s) && s@ == value@,
    {
        *self = Some(value.to_string());
    }

    /// Keeps the last string received.
    fn str_owned(&mut self, value: String)
        ensures
            *final(self) == Some(value),
    {
        *self = Some(value);
    }

    fn accepting() -> (r: StringLike)
        ensures
            r.spec_ids().len() == 4,
    {
        string_like()
    }
}

impl Receiver for Option<Vec<u8>> {
    type Accepting = BytesLike;

    /// Keeps a copy of the last bytes received.
    fn bytes(&mut self, value: &[u8])
        ensures
            *final(self) matches Some(v) && v@ == value@,
    {
        *self = Some(vstd::slice::slice_to_vec(value));
    }

    /// Keeps the last bytes received.
    fn bytes_owned(&mut self, value: Vec<u8>)
        ensures
            *final(self) == Some(value),
    {
        *self = Some(value);
    }

    fn accepting() -> (r: BytesLike)
        ensures
            r.spec_ids().len() == 4,
    {
        bytes_like()
    }
}

impl Receiver for () {
    type Accepting = AnyOf<()>;

    /// Wants nothing.
    fn accepting() -> (r: AnyOf<()>)
        ensures
            r.spec_ids().len() == 0,
    {
        AnyOf::new()
    }
}

/// A receiver that passes on only the values of the types its filter accepts.
pub struct ErasedReceiver<R> {
    accepting: ValidErasedFilter,
    receiver: Option<R>,
}

impl<R> ErasedReceiver<R> {
    /// The filter it applies.
    pub closed spec fn spec_accepting(&self) -> ValidErasedFilter {
        self.accepting
    }

    /// The receiver it passes values on to, if any.
    pub closed spec fn spec_receiver(&self) -> Option<R> {
        self.receiver
    }

    /// Whether it passes on values of the type with identifier `type_id`.
    pub fn accepts_type_id(&self, type_id: core::any::TypeId) -> (r: bool)
        ensures
            r == self.spec_accepting().allows(type_id),
    {
        self.accepting.accepts_id(type_id)
    }
}

impl<R> Default for ErasedReceiver<R> {
    /// Accepts everything and passes nothing on.
    fn default() -> (r: Self)
        ensures
            r.spec_accepting() is Any,
            r.spec_receiver() is None,
    {
        ErasedReceiver { accepting: ErasedFilter::Any, receiver: None }
    }
}

impl<R: Receiver> ErasedReceiver<R> {
    /// Wraps `receiver` behind the filter of the types it wants; a receiver that wants
    /// nothing is dropped.
    pub fn new(receiver: R) -> (r: Self)
        ensures
            r.spec_receiver() is None ==> r.spec_accepting() is Any,
            r.spec_receiver() matches Some(x) ==> x == receiver,
            exists|f: R::Accepting|
                #![trigger f.spec_is_empty()]
                {
                    &&& (r.spec_receiver() is None <==> f.spec_is_empty())
                    &&& (f.spec_is_empty() ==> forall|id: core::any::TypeId| !#[trigger] f.spec_accepts(id))
                    &&& (r.spec_receiver() is Some ==> forall|id: core::any::TypeId|
                        #[trigger] r.spec_accepting().allows(id) == f.spec_accepts(id))
                },
    {
        let accepting = R::accepting();
        let ghost f = accepting;
        if accepting.is_empty() {
            let r = Self::default();
            assert(r.spec_receiver() is None <==> f.spec_is_empty());
            return r;
        }
        let r = ErasedReceiver { accepting: accepting.into_erased(), receiver: Some(receiver) };
        assert(r.spec_receiver() is None <==> f.spec_is_empty());
        r
    }
}


impl<R: Receiver> Receiver for ErasedReceiver<R> {
    type Accepting = Any;

    /// Passes the value on when the filter accepts its type.
    fn bool(&mut self, value: bool)
        ensures
            final(self).spec_accepting() == old(self).spec_accepting(),
            old(self).spec_receiver() is None ==> final(self).spec_receiver() is None,
            old(self).spec_receiver() is Some ==> final(self).spec_receiver() is Some,
            (forall|id: core::any::TypeId| !#[trigger] old(self).spec_accepting().allows(id)) ==> *final(self)
                == *old(self),
    {
        if self.accepting.accepts(&value) {
            if let Some(r) = &mut self.receiver {
                r.bool(value);
            }
        }
    }

    /// Passes the value on when the filter accepts its type.
    fn i8(&mut self, value: i8)
        ensures
            final(self).spec_accepting() == old(self).spec_accepting(),
            old(self).spec_receiver() is None ==> final(self).spec_receiver() is None,
            old(self).spec_receiver() is Some ==> final(self).spec_receiver() is Some,
            (forall|id: core::any::TypeId| !#[trigger] old(self).spec_accepting().allows(id)) ==> *final(self)
                == *old(self),
    {
        if self.accepting.accepts(&value) {
            if let Some(r) = &mut self.receiver {
                r.i8(value);
            }
        }
    }

    /// Passes the value on when the filter accepts its type.
    fn u8(&mut self, value: u8)
        ensures
            final(self).spec_accepting() == old(self).spec_accepting(),
            old(self).spec_receiver() is None ==> final(self).spec_receiver() is None,
            old(self).spec_receiver() is Some ==> final(self).spec_receiver() is Some,
            (forall|id: core::any::TypeId| !#[trigger] old(self).spec_accepting().allows(id)) ==> *final(self)
                == *old(self),
    {
        if self.accepting.accepts(&value) {
            if let Some(r) = &mut self.receiver {
                r.u8(value);
            }
        }
    }

    /// Passes the value on when the filter accepts its type.
    fn i16(&mut self, value: i16)
        ensures
            final(self).spec_accepting() == old(self).spec_accepting(),
            old(self).spec_receiver() is None ==> final(self).spec_receiver() is None,
            old(self).spec_receiver() is Some ==> final(self).spec_receiver() is Some,
            (forall|id: core::any::TypeId| !#[trigger] old(self).spec_accepting().allows(id)) ==> *final(self)
                == *old(self),
    {
        if self.accepting.accepts(&value) {
            if let Some(r) = &mut self.receiver {
                r.i16(value);
            }
        }
    }

    /// Passes the value on when the filter accepts its type.
    fn u16(&mut self, value: u16)
        ensures
            final(self).spec_accepting() == old(self).spec_accepting(),
            old(self).spec_receiver() is None ==> final(self).spec_receiver() is None,
            old(self).spec_receiver() is Some ==> final(self).spec_receiver() is Some,
            (forall|id: core::any::TypeId| !#[trigger] old(self).spec_accepting().allows(id)) ==> *final(self)
                == *old(self),
    {
        if self.accepting.accepts(&value) {
            if let Some(r) = &mut self.receiver {
                r.u16(value);
            }
        }
    }

    /// Passes the value on when the filter accepts its type.
    fn i32(&mut self, value: i32)
        ensures
            final(self).spec_accepting() == old(self).spec_accepting(),
            old(self).spec_receiver() is None ==> final(self).spec_receiver() is None,
            old(self).spec_receiver() is Some ==> final(self).spec_receiver() is Some,
            (forall|id: core::any::TypeId| !#[trigger] old(self).spec_accepting().allows(id)) ==> *final(self)
                == *old(self),
    {
        if self.accepting.accepts(&value) {
            if let Some(r) = &mut self.receiver {
                r.i32(value);
            }
        }
    }

    /// Passes the value on when the filter accepts its type.
    fn u32(&mut self, value: u32)
        ensures
            final(self).spec_accepting() == old(self).spec_accepting(),
            old(self).spec_receiver() is None ==> final(self).spec_receiver() is None,
            old(self).spec_receiver() is Some ==> final(self).spec_receiver() is Some,
            (forall|id: core::any::TypeId| !#[trigger] old(self).spec_accepting().allows(id)) ==> *final(self)
                == *old(self),
    {
        if self.accepting.accepts(&value) {
            if let Some(r) = &mut self.receiver {
                r.u32(value);
            }
        }
    }

    /// Passes the value on when the filter accepts its type.
    fn i64(&mut self, value: i64)
        ensures
            final(self).spec_accepting() == old(self).spec_accepting(),
            old(self).spec_receiver() is None ==> final(self).spec_receiver() is None,
            old(self).spec_receiver() is Some ==> final(self).spec_receiver() is Some,
            (forall|id: core::any::TypeId| !#[trigger] old(self).spec_accepting().allows(id)) ==> *final(self)
                == *old(self),
    {
        if self.accepting.accepts(&value) {
            if let Some(r) = &mut self.receiver {
                r.i64(value);
            }
        }
    }

    /// Passes the value on when the filter accepts its type.
    fn u64(&mut self, value: u64)
        ensures
            final(self).spec_accepting() == old(self).spec_accepting(),
            old(self).spec_receiver() is None ==> final(self).spec_receiver() is None,
            old(self).spec_receiver() is Some ==> final(self).spec_receiver() is Some,
            (forall|id: core::any::TypeId| !#[trigger] old(self).spec_accepting().allows(id)) ==> *final(self)
                == *old(self),
    {
        if self.accepting.accepts(&value) {
            if let Some(r) = &mut self.receiver {
                r.u64(value);
            }
        }
    }

    /// Passes the value on when the filter accepts its type.
    fn i128(&mut self, value: i128)
        ensures
            final(self).spec_accepting() == old(self).spec_accepting(),
            old(self).spec_receiver() is None ==> final(self).spec_receiver() is None,
            old(self).spec_receiver() is Some ==> final(self).spec_receiver() is Some,
            (forall|id: core::any::TypeId| !#[trigger] old(self).spec_accepting().allows(id)) ==> *final(self)
                == *old(self),
    {
        if self.accepting.accepts(&value) {
            if let Some(r) = &mut self.receiver {
                r.i128(value);
            }
        }
    }

    /// Passes the value on when the filter accepts its type.
    fn u128(&mut self, value: u128)
        ensures
            final(self).spec_accepting() == old(self).spec_accepting(),
            old(self).spec_receiver() is None ==> final(self).spec_receiver() is None,
            old(self).spec_receiver() is Some ==> final(self).spec_receiver() is Some,
            (forall|id: core::any::TypeId| !#[trigger] old(self).spec_accepting().allows(id)) ==> *final(self)
                == *old(self),
    {
        if self.accepting.accepts(&value) {
            if let Some(r) = &mut self.receiver {
                r.u128(value);
            }
        }
    }

    /// Passes the value on when the filter accepts its type.
    fn char(&mut self, value: char)
        ensures
            final(self).spec_accepting() == old(self).spec_accepting(),
            old(self).spec_receiver() is None ==> final(self).spec_receiver() is None,
            old(self).spec_receiver() is Some ==> final(self).spec_receiver() is Some,
            (forall|id: core::any::TypeId| !#[trigger] old(self).spec_accepting().allows(id)) ==> *final(self)
                == *old(self),
    {
        if self.accepting.accepts(&value) {
            if let Some(r) = &mut self.receiver {
                r.char(value);
            }
        }
    }

    /// Passes the value on when the filter accepts its type.
    fn str(&mut self, value: &str)
        ensures
            final(self).spec_accepting() == old(self).spec_accepting(),
            old(self).spec_receiver() is None ==> final(self).spec_receiver() is None,
            old(self).spec_receiver() is Some ==> final(self).spec_receiver() is Some,
            (forall|id: core::any::TypeId| !#[trigger] old(self).spec_accepting().allows(id)) ==> *final(self)
                == *old(self),
    {
        if self.accepting.accepts(value) {
            if let Some(r) = &mut self.receiver {
                r.str(value);
            }
        }
    }

    /// Passes the value on when the filter accepts its type.
    fn str_owned(&mut self, value: String)
        ensures
            final(self).spec_accepting() == old(self).spec_accepting(),
            old(self).spec_receiver() is None ==> final(self).spec_receiver() is None,
            old(self).spec_receiver() is Some ==> final(self).spec_receiver() is Some,
            (forall|id: core::any::TypeId| !#[trigger] old(self).spec_accepting().allows(id)) ==> *final(self)
                == *old(self),
    {
        if self.accepting.accepts(&value) {
            if let Some(r) = &mut self.receiver {
                r.str_owned(value);
            }
        }
    }

    /// Passes the value on when the filter accepts its type.
    fn bytes(&mut self, value: &[u8])
        ensures
            final(self).spec_accepting() == old(self).spec_accepting(),
            old(self).spec_receiver() is None ==> final(self).spec_receiver() is None,
            old(self).spec_receiver() is Some ==> final(self).spec_receiver() is Some,
            (forall|id: core::any::TypeId| !#[trigger] old(self).spec_accepting().allows(id)) ==> *final(self)
                == *old(self),
    {
        if self.accepting.accepts(value) {
            if let Some(r) = &mut self.receiver {
                r.bytes(value);
            }
        }
    }

    /// Passes the value on when the filter accepts its type.
    fn bytes_owned(&mut self, value: Vec<u8>)
        ensures
            final(self).spec_accepting() == old(self).spec_accepting(),
            old(self).spec_receiver() is None ==> final(self).spec_receiver() is None,
            old(self).spec_receiver() is Some ==> final(self).spec_receiver() is Some,
            (forall|id: core::any::TypeId| !#[trigger] old(self).spec_accepting().allows(id)) ==> *final(self)
                == *old(self),
    {
        if self.accepting.accepts(&value) {
            if let Some(r) = &mut self.receiver {
                r.bytes_owned(value);
            }
        }
    }

    fn accepting() -> (r: Any) {
        Any
    }
}

} // verus!
