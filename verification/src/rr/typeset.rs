//! Sets of types, decided by type identifier.
use vstd::prelude::*;
use core::any::TypeId;
use crate::query::filter::{list_contains_id, TypeFilter, TypeList};
use crate::type_key::{type_id_eq, type_id_of};

verus! {

/// A set of types, given by the identifiers it contains.
pub trait TypeSet: Sized {
    /// Whether the set contains the type with identifier `id`.
    spec fn spec_contains(&self, id: TypeId) -> bool;

    fn contains_id(&self, type_id: TypeId) -> (r: bool)
        ensures
            r == self.spec_contains(type_id),
    ;

    /// Whether the set contains `T`: its answer for the identifier of `T`.
    fn contains_type<T: ?Sized + 'static>(&self) -> (r: bool)
        ensures
            exists|id: TypeId| r == #[trigger] self.spec_contains(id),
    {
        let id = type_id_of::<T>();
        let r = self.contains_id(id);
        assert(r == self.spec_contains(id));
        r
    }

    /// Whether the set contains the type of `value`: its answer for the identifier of `T`.
    fn contains_type_of<T: ?Sized + 'static>(&self, value: &T) -> (r: bool)
        ensures
            exists|id: TypeId| r == #[trigger] self.spec_contains(id),
    {
        self.contains_type::<T>()
    }
}

/// The set of the single type `T`.
pub struct Only<T: ?Sized> {
    id: TypeId,
    ty: core::marker::PhantomData<T>,
}

impl<T: ?Sized> Only<T> {
    /// The identifier of `T` that the set holds.
    pub closed spec fn spec_id(&self) -> TypeId {
        self.id
    }
}

impl<T: ?Sized + 'static> Default for Only<T> {
    fn default() -> (r: Self) {
        Only { id: type_id_of::<T>(), ty: core::marker::PhantomData }
    }
}

impl<T: ?Sized> TypeSet for Only<T> {
    open spec fn spec_contains(&self, id: TypeId) -> bool {
        id == self.spec_id()
    }

    fn contains_id(&self, type_id: TypeId) -> (r: bool) {
        let r = type_id_eq(&type_id, &self.id);
        assert(r == self.spec_contains(type_id));
        r
    }
}

/// The set of all types.
#[derive(Debug, Default, Clone, Copy)]
pub struct All;

impl TypeSet for All {
    open spec fn spec_contains(&self, id: TypeId) -> bool {
        true
    }

    fn contains_id(&self, type_id: TypeId) -> (r: bool) {
        assert(self.spec_contains(type_id));
        true
    }
}

/// The set of the types of the tuple `L`.
pub struct AnyOf<L: ?Sized> {
    ids: Vec<TypeId>,
    list: core::marker::PhantomData<L>,
}

impl<L: ?Sized> AnyOf<L> {
    /// The identifiers of the types in the set.
    pub closed spec fn spec_ids(&self) -> Seq<TypeId> {
        self.ids@
    }
}

impl<L: TypeList + ?Sized> Default for AnyOf<L> {
    fn default() -> (r: Self)
        ensures
            r.spec_ids().len() == L::arity(),
    {
        AnyOf { ids: L::type_ids(), list: core::marker::PhantomData }
    }
}

impl<L: ?Sized> TypeSet for AnyOf<L> {
    open spec fn spec_contains(&self, id: TypeId) -> bool {
        self.spec_ids().contains(id)
    }

    fn contains_id(&self, type_id: TypeId) -> (r: bool) {
        let r = list_contains_id(self.ids.as_slice(), &type_id);
        assert(r == self.spec_contains(type_id));
        r
    }
}

/// The types in both sets.
#[derive(Debug, Default, Clone, Copy)]
pub struct And<T, U>(pub T, pub U);

impl<T: TypeSet, U: TypeSet> TypeSet for And<T, U> {
    open spec fn spec_contains(&self, id: TypeId) -> bool {
        self.0.spec_contains(id) && self.1.spec_contains(id)
    }

    fn contains_id(&self, type_id: TypeId) -> (r: bool) {
        let r = self.0.contains_id(type_id) && self.1.contains_id(type_id);
        assert(r == self.spec_contains(type_id));
        r
    }

    fn contains_type<Typ: ?Sized + 'static>(&self) -> (r: bool) {
        let id = type_id_of::<Typ>();
        let r = self.0.contains_id(id) && self.1.contains_id(id);
        assert(r == self.spec_contains(id));
        r
    }

    fn contains_type_of<Typ: ?Sized + 'static>(&self, val: &Typ) -> (r: bool) {
        self.contains_type::<Typ>()
    }
}

/// The types in either set.
#[derive(Debug, Default, Clone, Copy)]
pub struct Or<T, U>(pub T, pub U);

impl<T: TypeSet, U: TypeSet> TypeSet for Or<T, U> {
    open spec fn spec_contains(&self, id: TypeId) -> bool {
        self.0.spec_contains(id) || self.1.spec_contains(id)
    }

    fn contains_id(&self, type_id: TypeId) -> (r: bool) {
        let r = self.0.contains_id(type_id) || self.1.contains_id(type_id);
        assert(r == self.spec_contains(type_id));
        r
    }

    fn contains_type<Typ: ?Sized + 'static>(&self) -> (r: bool) {
        let id = type_id_of::<Typ>();
        let r = self.0.contains_id(id) || self.1.contains_id(id);
        assert(r == self.spec_contains(id));
        r
    }

    fn contains_type_of<Typ: ?Sized + 'static>(&self, val: &Typ) -> (r: bool) {
        self.contains_type::<Typ>()
    }
}

/// The types not in the set.
#[derive(Debug, Default, Clone, Copy)]
pub struct Not<T>(pub T);

impl<T: TypeSet> TypeSet for Not<T> {
    open spec fn spec_contains(&self, id: TypeId) -> bool {
        !self.0.spec_contains(id)
    }

    fn contains_id(&self, type_id: TypeId) -> (r: bool) {
        let r = !self.0.contains_id(type_id);
        assert(r == self.spec_contains(type_id));
        r
    }

    fn contains_type<Typ: ?Sized + 'static>(&self) -> (r: bool) {
        let id = type_id_of::<Typ>();
        let r = !self.0.contains_id(id);
        assert(r == self.spec_contains(id));
        r
    }

    fn contains_type_of<Typ: ?Sized + 'static>(&self, val: &Typ) -> (r: bool) {
        self.contains_type::<Typ>()
    }
}

/// The types of text values.
pub type StringLike = AnyOf<(String, &'static str)>;

/// The types of byte values.
pub type BytesLike = AnyOf<(Vec<u8>, &'static [u8])>;

/// The set of the types that the receiver `R` wants.
pub struct AcceptedBy<R: crate::query::receiver::Receiver> {
    accepting: R::Accepting,
}

impl<R: crate::query::receiver::Receiver> AcceptedBy<R> {
    /// The filter of `R` that it holds.
    pub closed spec fn spec_accepting(&self) -> R::Accepting {
        self.accepting
    }

    pub fn new() -> (r: Self) {
        AcceptedBy { accepting: R::accepting() }
    }
}

impl<R: crate::query::receiver::Receiver> Default for AcceptedBy<R> {
    fn default() -> (r: Self) {
        Self::new()
    }
}

impl<R: crate::query::receiver::Receiver> TypeSet for AcceptedBy<R> {
    open spec fn spec_contains(&self, id: TypeId) -> bool {
        self.spec_accepting().spec_accepts(id)
    }

    fn contains_id(&self, type_id: TypeId) -> (r: bool) {
        let r = self.accepting.accepts_id(type_id);
        assert(r == self.spec_contains(type_id));
        r
    }

    fn contains_type<T: ?Sized + 'static>(&self) -> (r: bool) {
        let r = self.accepting.accepts_value_of::<T>();
        proof {
            let id = choose|id: TypeId| r == #[trigger] self.accepting.spec_accepts(id);
            assert(r == self.spec_contains(id));
        }
        r
    }

    fn contains_type_of<T: ?Sized + 'static>(&self, value: &T) -> (r: bool) {
        let r = self.accepting.accepts(value);
        proof {
            let id = choose|id: TypeId| r == #[trigger] self.accepting.spec_accepts(id);
            assert(r == self.spec_contains(id));
        }
        r
    }
}

} // verus!
