//! Filters over type identifiers: which types of values a query accepts.
use vstd::prelude::*;
use core::any::TypeId;
use core::convert::Infallible;
use core::cmp::Ordering;
use vstd::laws_cmp::obeys_cmp;
use vstd::laws_eq::obeys_concrete_eq;
use vstd::std_specs::cmp::{OrdSpec, PartialEqSpec, PartialOrdSpec};
use crate::type_key::{type_id_eq, type_id_of};

verus! {

/// Whether `id` occurs in `ids`.
pub open spec fn ids_contain(ids: Seq<TypeId>, id: TypeId) -> bool {
    ids.contains(id)
}

/// Linear membership test of a type identifier in a list.
pub fn list_contains_id(ids: &[TypeId], id: &TypeId) -> (r: bool)
    ensures
        r == ids@.contains(*id),
{
    let mut i: usize = 0;
    while i < ids.len()
        invariant
            0 <= i <= ids@.len(),
            forall|j: int| 0 <= j < i ==> ids@[j] != *id,
        decreases ids@.len() - i,
    {
        if type_id_eq(&ids[i], id) {
            return true;
        }
        i = i + 1;
    }
    false
}

/// Why a filter could not be turned into a flat, erased filter.
#[derive(Debug, Clone, Copy, PartialEq, Eq)]
pub enum EraseError {
    NoImpl,
    CopyOfDynamic,
    InverseOfDynamic,
    MergeDynamic,
    InverseOfCallback,
    Todo,
}

impl EraseError {
    /// The message that describes the error.
    pub fn message(&self) -> (r: &'static str)
        ensures
            r@ == self.spec_message(),
    {
        proof {
            reveal_strlit("no implementation");
            reveal_strlit("copy of dynamic filter");
            reveal_strlit("inverse of dynamic filter");
            reveal_strlit("merging dynamic filters");
            reveal_strlit("inverse of callback filter");
            reveal_strlit("todo");
        }
        match self {
            EraseError::NoImpl => "no implementation",
            EraseError::CopyOfDynamic => "copy of dynamic filter",
            EraseError::InverseOfDynamic => "inverse of dynamic filter",
            EraseError::MergeDynamic => "merging dynamic filters",
            EraseError::InverseOfCallback => "inverse of callback filter",
            EraseError::Todo => "todo",
        }
    }

    pub open spec fn spec_message(&self) -> Seq<char> {
        match self {
            EraseError::NoImpl => "no implementation"@,
            EraseError::CopyOfDynamic => "copy of dynamic filter"@,
            EraseError::InverseOfDynamic => "inverse of dynamic filter"@,
            EraseError::MergeDynamic => "merging dynamic filters"@,
            EraseError::InverseOfCallback => "inverse of callback filter"@,
            EraseError::Todo => "todo"@,
        }
    }
}

/// A filter that is known to be free of errors.
pub type ValidErasedFilter = ErasedFilter<Infallible>;

/// A composition of valid filters that has no flat representation.
pub enum DynamicFilter {
    And(ValidErasedFilter, ValidErasedFilter),
    Or(ValidErasedFilter, ValidErasedFilter),
    Not(ValidErasedFilter),
}

/// A type filter as plain data.
pub enum ErasedFilter<E> {
    Any,
    Nothing,
    Only(TypeId),
    Not(TypeId),
    AnyOfStack([TypeId; 1]),
    NoneOfStack([TypeId; 1]),
    AnyOfHeap(Vec<TypeId>),
    NoneOfHeap(Vec<TypeId>),
    Dynamic(Box<DynamicFilter>),
    /// Accepts the identifiers of a fixed list, tested when asked.
    Callback(Vec<TypeId>),
    Invalid(E),
}

impl DynamicFilter {
    pub open spec fn allows(&self, id: TypeId) -> bool
        decreases self,
    {
        match self {
            DynamicFilter::And(a, b) => a.allows(id) && b.allows(id),
            DynamicFilter::Or(a, b) => a.allows(id) || b.allows(id),
            DynamicFilter::Not(a) => !a.allows(id),
        }
    }
}

impl<E> ErasedFilter<E> {
    pub open spec fn is_valid(&self) -> bool {
        !(self is Invalid)
    }

    /// What the filter accepts; an invalid filter accepts nothing.
    pub open spec fn allows(&self, id: TypeId) -> bool
        decreases self,
    {
        match self {
            ErasedFilter::Any => true,
            ErasedFilter::Nothing => false,
            ErasedFilter::Only(x) => *x == id,
            ErasedFilter::Not(x) => *x != id,
            ErasedFilter::AnyOfStack(ids) => ids@.contains(id),
            ErasedFilter::NoneOfStack(ids) => !ids@.contains(id),
            ErasedFilter::AnyOfHeap(ids) => ids@.contains(id),
            ErasedFilter::NoneOfHeap(ids) => !ids@.contains(id),
            ErasedFilter::Dynamic(d) => d.allows(id),
            ErasedFilter::Callback(ids) => ids@.contains(id),
            ErasedFilter::Invalid(_) => false,
        }
    }
}

pub fn dynamic_accepts(d: &DynamicFilter, id: &TypeId) -> (r: bool)
    ensures
        r == d.allows(*id),
    decreases d,
{
    match d {
        DynamicFilter::And(a, b) => filter_accepts(a, id) && filter_accepts(b, id),
        DynamicFilter::Or(a, b) => filter_accepts(a, id) || filter_accepts(b, id),
        DynamicFilter::Not(a) => !filter_accepts(a, id),
    }
}

pub fn filter_accepts<E>(f: &ErasedFilter<E>, id: &TypeId) -> (r: bool)
    ensures
        r == f.allows(*id),
    decreases f,
{
    match f {
        ErasedFilter::Any => true,
        ErasedFilter::Nothing => false,
        ErasedFilter::Only(x) => type_id_eq(x, id),
        ErasedFilter::Not(x) => !type_id_eq(x, id),
        ErasedFilter::AnyOfStack(ids) => list_contains_id(ids, id),
        ErasedFilter::NoneOfStack(ids) => !list_contains_id(ids, id),
        ErasedFilter::AnyOfHeap(ids) => list_contains_id(ids.as_slice(), id),
        ErasedFilter::NoneOfHeap(ids) => !list_contains_id(ids.as_slice(), id),
        ErasedFilter::Dynamic(d) => dynamic_accepts(d, id),
        ErasedFilter::Callback(ids) => list_contains_id(ids.as_slice(), id),
        ErasedFilter::Invalid(_) => false,
    }
}


/// The shape that a list of identifiers takes when it becomes a filter: nothing for an
/// empty list, a single identifier for one, and the whole list otherwise.
pub open spec fn from_list_spec<E>(ids: Seq<TypeId>, r: ErasedFilter<E>) -> bool {
    if ids.len() == 0 {
        r is Nothing
    } else if ids.len() == 1 {
        r == ErasedFilter::<E>::Only(ids[0])
    } else {
        r matches ErasedFilter::AnyOfHeap(v) && v@.to_multiset() == ids.to_multiset() && ids_sorted(v@)
    }
}

/// The order of type identifiers: what `<TypeId as PartialOrd>::le` answers for `a` and `b`.
pub uninterp spec fn type_id_le(a: TypeId, b: TypeId) -> bool;

/// Whether the identifiers are in ascending order of `TypeId`'s `Ord`.
pub open spec fn ids_sorted(s: Seq<TypeId>) -> bool {
    forall|i: int, j: int| 0 <= i < j < s.len() ==> type_id_le(#[trigger] s[i], #[trigger] s[j])
}

/// Calls `<[TypeId]>::sort_unstable` on the identifiers.
///
/// Claims what std documents: the identifiers that went in come out, in ascending order
/// of `TypeId`'s `Ord`, which is a total order, so the call does not panic. That order is
/// only named (`type_id_le`): std does not say how identifiers compare.
#[verifier::external_body]
fn sort_type_ids(v: &mut Vec<TypeId>)
    ensures
        final(v)@.to_multiset() == old(v)@.to_multiset(),
        forall|i: int, j: int|
            0 <= i < j < final(v)@.len() ==> type_id_le(#[trigger] final(v)@[i], #[trigger] final(v)@[j]),
{
    v.sort_unstable();
}

/// Two lists with the same identifiers, counted, hold the same identifiers.
pub proof fn lemma_same_ids(a: Seq<TypeId>, b: Seq<TypeId>)
    requires
        a.to_multiset() == b.to_multiset(),
    ensures
        forall|id: TypeId| a.contains(id) == b.contains(id),
{
    broadcast use vstd::seq_lib::to_multiset_contains;
    assert forall|id: TypeId| a.contains(id) == b.contains(id) by {
        assert(a.contains(id) <==> a.to_multiset().count(id) > 0);
        assert(b.contains(id) <==> b.to_multiset().count(id) > 0);
    }
}

/// What `try_contains_id` answers.
pub open spec fn spec_try_contains<E>(f: ErasedFilter<E>, id: TypeId) -> Option<bool> {
    if f.is_valid() {
        Some(f.allows(id))
    } else {
        None
    }
}

/// The filter that `!` gives.
pub open spec fn spec_not(f: ErasedFilter<EraseError>) -> ErasedFilter<EraseError> {
    match f {
        ErasedFilter::Any => ErasedFilter::Nothing,
        ErasedFilter::Nothing => ErasedFilter::Any,
        ErasedFilter::Only(id) => ErasedFilter::Not(id),
        ErasedFilter::Not(id) => ErasedFilter::Only(id),
        ErasedFilter::AnyOfStack(ids) => ErasedFilter::NoneOfStack(ids),
        ErasedFilter::NoneOfStack(ids) => ErasedFilter::AnyOfStack(ids),
        ErasedFilter::AnyOfHeap(ids) => ErasedFilter::NoneOfHeap(ids),
        ErasedFilter::NoneOfHeap(ids) => ErasedFilter::AnyOfHeap(ids),
        ErasedFilter::Dynamic(_) => ErasedFilter::Invalid(EraseError::InverseOfDynamic),
        ErasedFilter::Callback(_) => ErasedFilter::Invalid(EraseError::InverseOfCallback),
        ErasedFilter::Invalid(e) => ErasedFilter::Invalid(e),
    }
}

/// Taking the complement twice gives the filter back, for every filter that has a
/// complement (all but `Dynamic` and `Callback`).
pub proof fn lemma_not_not(f: ErasedFilter<EraseError>)
    requires
        !(f is Dynamic),
        !(f is Callback),
    ensures
        spec_not(spec_not(f)) == f,
{
}

impl<E> ErasedFilter<E> {
    /// The filter that accepts only the type `T`.
    pub fn only<T: ?Sized + 'static>() -> (r: Self)
        ensures
            r is Only,
    {
        ErasedFilter::Only(type_id_of::<T>())
    }

    /// Whether the filter accepts `type_id`, or `None` for an invalid filter.
    pub fn try_contains_id(&self, type_id: TypeId) -> (r: Option<bool>)
        ensures
            r == spec_try_contains(*self, type_id),
    {
        match self {
            ErasedFilter::Invalid(_) => None,
            _ => Some(filter_accepts(self, &type_id)),
        }
    }

    /// The filter that accepts exactly the identifiers of `ids`.
    pub fn from_slice(ids: &[TypeId]) -> (r: Self)
        ensures
            from_list_spec(ids@, r),
            r.is_valid(),
            forall|id: TypeId| r.allows(id) == ids@.contains(id),
    {
        if ids.len() == 0 {
            ErasedFilter::Nothing
        } else if ids.len() == 1 {
            ErasedFilter::Only(ids[0])
        } else {
            let mut v = vstd::slice::slice_to_vec(ids);
            sort_type_ids(&mut v);
            proof {
                lemma_same_ids(v@, ids@);
            }
            ErasedFilter::AnyOfHeap(v)
        }
    }

    /// The filter that accepts exactly the identifiers of an array.
    pub fn from_array<const N: usize>(ids: [TypeId; N]) -> (r: Self)
        ensures
            from_list_spec(ids@, r),
            r.is_valid(),
            forall|id: TypeId| r.allows(id) == ids@.contains(id),
    {
        Self::from_slice(&ids)
    }

    /// The filter that accepts exactly the collected identifiers.
    pub fn from_ids(ids: Vec<TypeId>) -> (r: Self)
        ensures
            from_list_spec(ids@, r),
            r.is_valid(),
            forall|id: TypeId| r.allows(id) == ids@.contains(id),
    {
        if ids.len() == 0 {
            ErasedFilter::Nothing
        } else if ids.len() == 1 {
            ErasedFilter::Only(ids[0])
        } else {
            let ghost before = ids@;
            let mut v = ids;
            sort_type_ids(&mut v);
            proof {
                lemma_same_ids(v@, before);
            }
            ErasedFilter::AnyOfHeap(v)
        }
    }
}

impl ErasedFilter<EraseError> {
    /// The same filter, known to be valid, or the error it holds.
    pub fn try_into_valid(self) -> (r: Result<ValidErasedFilter, EraseError>)
        ensures
            match self {
                ErasedFilter::Invalid(e) => r == Err::<ValidErasedFilter, EraseError>(e),
                _ => r matches Ok(v) && v.is_valid() && forall|id: TypeId| #[trigger] v.allows(id) == self.allows(id),
            },
    {
        match self {
            ErasedFilter::Invalid(e) => Err(e),
            ErasedFilter::Any => Ok(ErasedFilter::Any),
            ErasedFilter::Nothing => Ok(ErasedFilter::Nothing),
            ErasedFilter::Only(id) => Ok(ErasedFilter::Only(id)),
            ErasedFilter::Not(id) => Ok(ErasedFilter::Not(id)),
            ErasedFilter::AnyOfStack(ids) => Ok(ErasedFilter::AnyOfStack(ids)),
            ErasedFilter::NoneOfStack(ids) => Ok(ErasedFilter::NoneOfStack(ids)),
            ErasedFilter::AnyOfHeap(ids) => Ok(ErasedFilter::AnyOfHeap(ids)),
            ErasedFilter::NoneOfHeap(ids) => Ok(ErasedFilter::NoneOfHeap(ids)),
            ErasedFilter::Dynamic(d) => Ok(ErasedFilter::Dynamic(d)),
            ErasedFilter::Callback(ids) => Ok(ErasedFilter::Callback(ids)),
        }
    }

    /// The complement of the filter.
    pub fn not(self) -> (r: Self)
        ensures
            r == spec_not(self),
            r.is_valid() ==> forall|id: TypeId| #[trigger] r.allows(id) == !self.allows(id),
    {
        match self {
            ErasedFilter::Any => ErasedFilter::Nothing,
            ErasedFilter::Nothing => ErasedFilter::Any,
            ErasedFilter::Only(id) => ErasedFilter::Not(id),
            ErasedFilter::Not(id) => ErasedFilter::Only(id),
            ErasedFilter::AnyOfStack(ids) => ErasedFilter::NoneOfStack(ids),
            ErasedFilter::NoneOfStack(ids) => ErasedFilter::AnyOfStack(ids),
            ErasedFilter::AnyOfHeap(ids) => ErasedFilter::NoneOfHeap(ids),
            ErasedFilter::NoneOfHeap(ids) => ErasedFilter::AnyOfHeap(ids),
            ErasedFilter::Dynamic(_) => ErasedFilter::Invalid(EraseError::InverseOfDynamic),
            ErasedFilter::Callback(_) => ErasedFilter::Invalid(EraseError::InverseOfCallback),
            ErasedFilter::Invalid(e) => ErasedFilter::Invalid(e),
        }
    }
}


/// What `|` gives, arm by arm.
pub open spec fn spec_bitor(a: ErasedFilter<EraseError>, b: ErasedFilter<EraseError>, r: ErasedFilter<EraseError>) -> bool {
    if a is Any || b is Any {
        r is Any
    } else if a is Nothing {
        r == b
    } else if b is Nothing {
        r == a
    } else if a is Only && b is Only && a->Only_0 == b->Only_0 {
        r == a
    } else if b is Only && spec_try_contains(a, b->Only_0) == Some(true) {
        r == a
    } else if a is Only && spec_try_contains(b, a->Only_0) == Some(true) {
        r == b
    } else if a is AnyOfStack && b is AnyOfStack {
        r matches ErasedFilter::AnyOfHeap(v) && v@.to_multiset() == seq![a->AnyOfStack_0[0], b->AnyOfStack_0[0]].to_multiset()
            && ids_sorted(v@)
    } else if a is NoneOfStack && b is NoneOfStack {
        r matches ErasedFilter::NoneOfHeap(v) && v@.to_multiset() == seq![a->NoneOfStack_0[0], b->NoneOfStack_0[0]].to_multiset()
            && ids_sorted(v@)
    } else if a is AnyOfStack && b is NoneOfStack {
        let inc = a->AnyOfStack_0[0];
        let exc = b->NoneOfStack_0[0];
        if inc != exc { r == ErasedFilter::<EraseError>::Only(inc) } else { r is Nothing }
    } else if a is NoneOfStack && b is AnyOfStack {
        let inc = b->AnyOfStack_0[0];
        let exc = a->NoneOfStack_0[0];
        if inc != exc { r == ErasedFilter::<EraseError>::Only(inc) } else { r is Nothing }
    } else if a is Dynamic && b is Dynamic {
        r == ErasedFilter::<EraseError>::Invalid(EraseError::MergeDynamic)
    } else if a is Invalid {
        r == a
    } else if b is Invalid {
        r == b
    } else {
        r == ErasedFilter::<EraseError>::Invalid(EraseError::Todo)
    }
}

/// The pairs on which `|` merges single-identifier sets as if it intersected them.
pub open spec fn bitor_mixes_stack_sets(a: ErasedFilter<EraseError>, b: ErasedFilter<EraseError>) -> bool {
    ||| (a is NoneOfStack && b is NoneOfStack)
    ||| (a is AnyOfStack && b is NoneOfStack)
    ||| (a is NoneOfStack && b is AnyOfStack)
}

/// What `&` gives, arm by arm.
pub open spec fn spec_bitand(a: ErasedFilter<EraseError>, b: ErasedFilter<EraseError>, r: ErasedFilter<EraseError>) -> bool {
    if a is Any {
        r == b
    } else if b is Any {
        r == a
    } else if a is Nothing || b is Nothing {
        r is Nothing
    } else if a is Only && b is Only && a->Only_0 == b->Only_0 {
        r == a
    } else if a is Only && b is AnyOfStack {
        if b->AnyOfStack_0@.contains(a->Only_0) { r == a } else { r is Nothing }
    } else if a is AnyOfStack && b is Only {
        if a->AnyOfStack_0@.contains(b->Only_0) { r == b } else { r is Nothing }
    } else if a is Only && b is NoneOfStack {
        if b->NoneOfStack_0@.contains(a->Only_0) { r is Nothing } else { r == a }
    } else if a is NoneOfStack && b is Only {
        if a->NoneOfStack_0@.contains(b->Only_0) { r is Nothing } else { r == b }
    } else if a is Only && b is Callback {
        if b->Callback_0@.contains(a->Only_0) { r == a } else { r is Nothing }
    } else if a is Callback && b is Only {
        if a->Callback_0@.contains(b->Only_0) { r == b } else { r is Nothing }
    } else if a is Dynamic && b is Dynamic {
        r == ErasedFilter::<EraseError>::Invalid(EraseError::MergeDynamic)
    } else if a is Invalid {
        r == a
    } else if b is Invalid {
        r == b
    } else {
        r == ErasedFilter::<EraseError>::Invalid(EraseError::Todo)
    }
}

impl ErasedFilter<EraseError> {
    /// Whether the filter is `Only(id)` and whether `other` is known to accept `id`.
    fn only_within(&self, other: &Self) -> (r: bool)
        ensures
            r == (self is Only && spec_try_contains(*other, self->Only_0) == Some(true)),
    {
        match self {
            ErasedFilter::Only(x) => match other.try_contains_id(*x) {
                Some(true) => true,
                _ => false,
            },
            _ => false,
        }
    }

    /// The union of two filters.
    pub fn bitor(self, rhs: Self) -> (r: Self)
        ensures
            spec_bitor(self, rhs, r),
            r.is_valid() && !bitor_mixes_stack_sets(self, rhs) ==> forall|id: TypeId|
                #[trigger] r.allows(id) == (self.allows(id) || rhs.allows(id)),
    {
        if matches!(self, ErasedFilter::Any) || matches!(rhs, ErasedFilter::Any) {
            return ErasedFilter::Any;
        }
        if matches!(self, ErasedFilter::Nothing) {
            return rhs;
        }
        if matches!(rhs, ErasedFilter::Nothing) {
            return self;
        }
        let same_only = match (&self, &rhs) {
            (ErasedFilter::Only(x), ErasedFilter::Only(y)) => type_id_eq(x, y),
            _ => false,
        };
        if same_only {
            return self;
        }
        if rhs.only_within(&self) {
            return self;
        }
        if self.only_within(&rhs) {
            return rhs;
        }
        match (self, rhs) {
            (ErasedFilter::AnyOfStack(i1), ErasedFilter::AnyOfStack(i2)) => {
                let mut v: Vec<TypeId> = Vec::new();
                v.push(i1[0]);
                v.push(i2[0]);
                proof {
                    assert(v@ =~= seq![i1[0], i2[0]]);
                }
                let ghost before = v@;
                sort_type_ids(&mut v);
                proof {
                    lemma_same_ids(v@, before);
                }
                ErasedFilter::AnyOfHeap(v)
            },
            (ErasedFilter::NoneOfStack(i1), ErasedFilter::NoneOfStack(i2)) => {
                let mut v: Vec<TypeId> = Vec::new();
                v.push(i1[0]);
                v.push(i2[0]);
                proof {
                    assert(v@ =~= seq![i1[0], i2[0]]);
                }
                let ghost before = v@;
                sort_type_ids(&mut v);
                proof {
                    lemma_same_ids(v@, before);
                }
                ErasedFilter::NoneOfHeap(v)
            },
            (ErasedFilter::AnyOfStack(inc), ErasedFilter::NoneOfStack(exc))
            | (ErasedFilter::NoneOfStack(exc), ErasedFilter::AnyOfStack(inc)) => {
                if !type_id_eq(&inc[0], &exc[0]) {
                    ErasedFilter::Only(inc[0])
                } else {
                    ErasedFilter::Nothing
                }
            },
            (ErasedFilter::Dynamic(_), ErasedFilter::Dynamic(_)) => ErasedFilter::Invalid(EraseError::MergeDynamic),
            (ErasedFilter::Invalid(e), _) => ErasedFilter::Invalid(e),
            (_, ErasedFilter::Invalid(e)) => ErasedFilter::Invalid(e),
            _ => ErasedFilter::Invalid(EraseError::Todo),
        }
    }

    /// The intersection of two filters.
    pub fn bitand(self, rhs: Self) -> (r: Self)
        ensures
            spec_bitand(self, rhs, r),
            r.is_valid() ==> forall|id: TypeId|
                #[trigger] r.allows(id) == (self.allows(id) && rhs.allows(id)),
    {
        if matches!(self, ErasedFilter::Any) {
            return rhs;
        }
        if matches!(rhs, ErasedFilter::Any) {
            return self;
        }
        if matches!(self, ErasedFilter::Nothing) || matches!(rhs, ErasedFilter::Nothing) {
            return ErasedFilter::Nothing;
        }
        match (self, rhs) {
            (ErasedFilter::Only(x), ErasedFilter::Only(y)) if type_id_eq(&x, &y) => ErasedFilter::Only(x),
            (ErasedFilter::Only(id), ErasedFilter::AnyOfStack(ids))
            | (ErasedFilter::AnyOfStack(ids), ErasedFilter::Only(id)) => {
                if list_contains_id(&ids, &id) {
                    ErasedFilter::Only(id)
                } else {
                    ErasedFilter::Nothing
                }
            },
            (ErasedFilter::Only(id), ErasedFilter::NoneOfStack(ids))
            | (ErasedFilter::NoneOfStack(ids), ErasedFilter::Only(id)) => {
                if list_contains_id(&ids, &id) {
                    ErasedFilter::Nothing
                } else {
                    ErasedFilter::Only(id)
                }
            },
            (ErasedFilter::Only(id), ErasedFilter::Callback(ids))
            | (ErasedFilter::Callback(ids), ErasedFilter::Only(id)) => {
                if list_contains_id(ids.as_slice(), &id) {
                    ErasedFilter::Only(id)
                } else {
                    ErasedFilter::Nothing
                }
            },
            (ErasedFilter::Dynamic(_), ErasedFilter::Dynamic(_)) => ErasedFilter::Invalid(EraseError::MergeDynamic),
            (ErasedFilter::Invalid(e), _) => ErasedFilter::Invalid(e),
            (_, ErasedFilter::Invalid(e)) => ErasedFilter::Invalid(e),
            _ => ErasedFilter::Invalid(EraseError::Todo),
        }
    }
}


/// A set of types, given by the identifiers it accepts.
pub trait TypeFilter: Sized {
    /// Whether the filter accepts the type with identifier `id`.
    spec fn spec_accepts(&self, id: TypeId) -> bool;

    fn accepts_id(&self, type_id: TypeId) -> (r: bool)
        ensures
            r == self.spec_accepts(type_id),
    ;

    /// Whether the filter accepts values of type `T`: its answer for the identifier
    /// of `T`.
    fn accepts_value_of<T: ?Sized + 'static>(&self) -> (r: bool)
        ensures
            exists|id: TypeId| r == #[trigger] self.spec_accepts(id),
    {
        let id = type_id_of::<T>();
        let r = self.accepts_id(id);
        assert(r == self.spec_accepts(id));
        r
    }

    /// Whether the filter accepts `value`, judged by its type alone: its answer for
    /// the identifier of `T`.
    fn accepts<T: ?Sized + 'static>(&self, value: &T) -> (r: bool)
        ensures
            exists|id: TypeId| r == #[trigger] self.spec_accepts(id),
    {
        self.accepts_value_of::<T>()
    }

    /// Whether the filter reports itself empty; a filter reports so only when it
    /// accepts no type at all.
    spec fn spec_is_empty(&self) -> bool;

    /// Whether the filter reports itself empty.
    fn is_empty(&self) -> (r: bool)
        ensures
            r == self.spec_is_empty(),
            r ==> forall|id: TypeId| !#[trigger] self.spec_accepts(id),
    ;

    /// The filter as plain data, when it has a flat representation.
    fn as_erased(&self) -> (r: ErasedFilter<EraseError>)
        ensures
            r.is_valid() ==> forall|id: TypeId| #[trigger] r.allows(id) == self.spec_accepts(id),
    {
        ErasedFilter::Invalid(EraseError::NoImpl)
    }

    /// The filter as plain data that accepts exactly what the filter accepts.
    fn into_erased(self) -> (r: ValidErasedFilter)
        ensures
            forall|id: TypeId| #[trigger] r.allows(id) == self.spec_accepts(id),
    ;
}

/// Copies a valid filter into a filter that may hold errors.
fn copy_valid(f: &ValidErasedFilter) -> (r: ErasedFilter<EraseError>)
    ensures
        f.is_valid() && !(f is Dynamic) ==> r.is_valid(),
        f is Dynamic ==> r == ErasedFilter::<EraseError>::Invalid(EraseError::CopyOfDynamic),
        r.is_valid() ==> forall|id: TypeId| #[trigger] r.allows(id) == f.allows(id),
{
    match f {
        ErasedFilter::Any => ErasedFilter::Any,
        ErasedFilter::Nothing => ErasedFilter::Nothing,
        ErasedFilter::Only(id) => ErasedFilter::Only(*id),
        ErasedFilter::Not(id) => ErasedFilter::Not(*id),
        ErasedFilter::AnyOfStack(ids) => ErasedFilter::AnyOfStack(*ids),
        ErasedFilter::NoneOfStack(ids) => ErasedFilter::NoneOfStack(*ids),
        ErasedFilter::AnyOfHeap(ids) => ErasedFilter::AnyOfHeap(vstd::slice::slice_to_vec(ids.as_slice())),
        ErasedFilter::NoneOfHeap(ids) => ErasedFilter::NoneOfHeap(vstd::slice::slice_to_vec(ids.as_slice())),
        ErasedFilter::Dynamic(_) => ErasedFilter::Invalid(EraseError::CopyOfDynamic),
        ErasedFilter::Callback(ids) => ErasedFilter::Callback(vstd::slice::slice_to_vec(ids.as_slice())),
        ErasedFilter::Invalid(_) => ErasedFilter::Invalid(EraseError::NoImpl),
    }
}

impl TypeFilter for ValidErasedFilter {
    open spec fn spec_accepts(&self, id: TypeId) -> bool {
        self.allows(id)
    }

    /// An erased filter does not report itself empty.
    open spec fn spec_is_empty(&self) -> bool {
        false
    }

    fn is_empty(&self) -> (r: bool) {
        false
    }

    fn accepts_id(&self, type_id: TypeId) -> (r: bool) {
        let r = filter_accepts(self, &type_id);
        assert(r == self.spec_accepts(type_id));
        r
    }

    fn as_erased(&self) -> (r: ErasedFilter<EraseError>)
        ensures
            self.is_valid() && !(self is Dynamic) ==> r.is_valid(),
            self is Dynamic ==> r == ErasedFilter::<EraseError>::Invalid(EraseError::CopyOfDynamic),
    {
        copy_valid(self)
    }

    fn into_erased(self) -> (r: ValidErasedFilter)
        ensures
            r == self,
    {
        self
    }
}

/// Accepts exactly the type `T`.
pub struct Only<T: ?Sized> {
    id: TypeId,
    ty: core::marker::PhantomData<T>,
}

impl<T: ?Sized> Only<T> {
    /// The identifier of `T` that the filter holds.
    pub closed spec fn spec_id(&self) -> TypeId {
        self.id
    }
}

impl<T: ?Sized + 'static> Only<T> {
    pub fn new() -> (r: Self) {
        Only { id: type_id_of::<T>(), ty: core::marker::PhantomData }
    }
}

impl<T: ?Sized + 'static> Default for Only<T> {
    fn default() -> (r: Self) {
        Self::new()
    }
}

impl<T: ?Sized> Clone for Only<T> {
    fn clone(&self) -> (r: Self)
        ensures
            r.spec_id() == self.spec_id(),
    {
        Only { id: self.id, ty: core::marker::PhantomData }
    }
}

impl<T: ?Sized> TypeFilter for Only<T> {
    open spec fn spec_accepts(&self, id: TypeId) -> bool {
        id == self.spec_id()
    }

    /// It holds one type, so it is not empty.
    open spec fn spec_is_empty(&self) -> bool {
        false
    }

    fn is_empty(&self) -> (r: bool) {
        false
    }

    fn accepts_id(&self, type_id: TypeId) -> (r: bool) {
        let r = type_id_eq(&type_id, &self.id);
        assert(r == self.spec_accepts(type_id));
        r
    }

    fn as_erased(&self) -> (r: ErasedFilter<EraseError>)
        ensures
            r == ErasedFilter::<EraseError>::Only(self.spec_id()),
    {
        ErasedFilter::Only(self.id)
    }

    fn into_erased(self) -> (r: ValidErasedFilter)
        ensures
            r == ValidErasedFilter::Only(self.spec_id()),
    {
        ErasedFilter::Only(self.id)
    }
}

/// Accepts every type.
#[derive(Debug, Default, Clone, Copy)]
pub struct Any;

impl TypeFilter for Any {
    open spec fn spec_accepts(&self, id: TypeId) -> bool {
        true
    }

    /// It accepts every type, so it is not empty.
    open spec fn spec_is_empty(&self) -> bool {
        false
    }

    fn is_empty(&self) -> (r: bool) {
        false
    }

    fn accepts_id(&self, type_id: TypeId) -> (r: bool) {
        assert(self.spec_accepts(type_id));
        true
    }

    fn as_erased(&self) -> (r: ErasedFilter<EraseError>)
        ensures
            r is Any,
    {
        ErasedFilter::Any
    }

    fn into_erased(self) -> (r: ValidErasedFilter)
        ensures
            r is Any,
    {
        ErasedFilter::Any
    }
}


/// A tuple of types whose identifiers can be listed.
pub trait TypeList {
    /// How many types the tuple holds.
    spec fn arity() -> nat;

    /// The identifiers of the tuple's types, in order.
    fn type_ids() -> (r: Vec<TypeId>)
        ensures
            r@.len() == Self::arity(),
    ;
}

impl TypeList for () {
    open spec fn arity() -> nat {
        0
    }

    fn type_ids() -> (r: Vec<TypeId>) {
        Vec::new()
    }
}

impl<T1: 'static + ?Sized> TypeList for (T1,) {
    open spec fn arity() -> nat {
        1
    }

    fn type_ids() -> (r: Vec<TypeId>) {
        let mut v: Vec<TypeId> = Vec::new();
        v.push(type_id_of::<T1>());
        v
    }
}

impl<T1: 'static, T2: 'static> TypeList for (T1, T2) {
    open spec fn arity() -> nat {
        2
    }

    fn type_ids() -> (r: Vec<TypeId>) {
        let mut v: Vec<TypeId> = Vec::new();
        v.push(type_id_of::<T1>());
        v.push(type_id_of::<T2>());
        v
    }
}

impl<T1: 'static, T2: 'static, T3: 'static + ?Sized> TypeList for (T1, T2, T3) {
    open spec fn arity() -> nat {
        3
    }

    fn type_ids() -> (r: Vec<TypeId>) {
        let mut v: Vec<TypeId> = Vec::new();
        v.push(type_id_of::<T1>());
        v.push(type_id_of::<T2>());
        v.push(type_id_of::<T3>());
        v
    }
}

impl<T1: 'static, T2: 'static, T3: 'static, T4: 'static + ?Sized> TypeList for (T1, T2, T3, T4) {
    open spec fn arity() -> nat {
        4
    }

    fn type_ids() -> (r: Vec<TypeId>) {
        let mut v: Vec<TypeId> = Vec::new();
        v.push(type_id_of::<T1>());
        v.push(type_id_of::<T2>());
        v.push(type_id_of::<T3>());
        v.push(type_id_of::<T4>());
        v
    }
}

impl<T1: 'static, T2: 'static, T3: 'static, T4: 'static, T5: 'static, T6: 'static> TypeList for (T1, T2, T3, T4, T5, T6) {
    open spec fn arity() -> nat {
        6
    }

    fn type_ids() -> (r: Vec<TypeId>) {
        let mut v: Vec<TypeId> = Vec::new();
        v.push(type_id_of::<T1>());
        v.push(type_id_of::<T2>());
        v.push(type_id_of::<T3>());
        v.push(type_id_of::<T4>());
        v.push(type_id_of::<T5>());
        v.push(type_id_of::<T6>());
        v
    }
}

impl<T1: 'static, T2: 'static, T3: 'static, T4: 'static, T5: 'static, T6: 'static, T7: 'static> TypeList for (T1, T2, T3, T4, T5, T6, T7) {
    open spec fn arity() -> nat {
        7
    }

    fn type_ids() -> (r: Vec<TypeId>) {
        let mut v: Vec<TypeId> = Vec::new();
        v.push(type_id_of::<T1>());
        v.push(type_id_of::<T2>());
        v.push(type_id_of::<T3>());
        v.push(type_id_of::<T4>());
        v.push(type_id_of::<T5>());
        v.push(type_id_of::<T6>());
        v.push(type_id_of::<T7>());
        v
    }
}

impl<T1: 'static, T2: 'static, T3: 'static, T4: 'static, T5: 'static, T6: 'static, T7: 'static, T8: 'static> TypeList for (T1, T2, T3, T4, T5, T6, T7, T8) {
    open spec fn arity() -> nat {
        8
    }

    fn type_ids() -> (r: Vec<TypeId>) {
        let mut v: Vec<TypeId> = Vec::new();
        v.push(type_id_of::<T1>());
        v.push(type_id_of::<T2>());
        v.push(type_id_of::<T3>());
        v.push(type_id_of::<T4>());
        v.push(type_id_of::<T5>());
        v.push(type_id_of::<T6>());
        v.push(type_id_of::<T7>());
        v.push(type_id_of::<T8>());
        v
    }
}

impl<T1: 'static, T2: 'static, T3: 'static, T4: 'static, T5: 'static, T6: 'static, T7: 'static, T8: 'static, T9: 'static, T10: 'static, T11: 'static, T12: 'static, T13: 'static, T14: 'static, T15: 'static, T16: 'static> TypeList for (T1, T2, T3, T4, T5, T6, T7, T8, T9, T10, T11, T12, T13, T14, T15, T16) {
    open spec fn arity() -> nat {
        16
    }

    fn type_ids() -> (r: Vec<TypeId>) {
        let mut v: Vec<TypeId> = Vec::new();
        v.push(type_id_of::<T1>());
        v.push(type_id_of::<T2>());
        v.push(type_id_of::<T3>());
        v.push(type_id_of::<T4>());
        v.push(type_id_of::<T5>());
        v.push(type_id_of::<T6>());
        v.push(type_id_of::<T7>());
        v.push(type_id_of::<T8>());
        v.push(type_id_of::<T9>());
        v.push(type_id_of::<T10>());
        v.push(type_id_of::<T11>());
        v.push(type_id_of::<T12>());
        v.push(type_id_of::<T13>());
        v.push(type_id_of::<T14>());
        v.push(type_id_of::<T15>());
        v.push(type_id_of::<T16>());
        v
    }
}

/// Accepts any of the types of the tuple `L`.
pub struct AnyOf<L: ?Sized> {
    ids: Vec<TypeId>,
    list: core::marker::PhantomData<L>,
}

impl<L: ?Sized> AnyOf<L> {
    /// The identifiers of the types the filter accepts.
    pub closed spec fn spec_ids(&self) -> Seq<TypeId> {
        self.ids@
    }
}

impl<L: TypeList + ?Sized> AnyOf<L> {
    pub fn new() -> (r: Self)
        ensures
            r.spec_ids().len() == L::arity(),
    {
        AnyOf { ids: L::type_ids(), list: core::marker::PhantomData }
    }
}

impl<L: TypeList + ?Sized> Default for AnyOf<L> {
    fn default() -> (r: Self) {
        Self::new()
    }
}

impl<L: ?Sized> Clone for AnyOf<L> {
    fn clone(&self) -> (r: Self)
        ensures
            r.spec_ids() == self.spec_ids(),
    {
        AnyOf { ids: vstd::slice::slice_to_vec(self.ids.as_slice()), list: core::marker::PhantomData }
    }
}

impl<L: ?Sized> TypeFilter for AnyOf<L> {
    open spec fn spec_accepts(&self, id: TypeId) -> bool {
        self.spec_ids().contains(id)
    }

    /// Empty when it holds no type.
    open spec fn spec_is_empty(&self) -> bool {
        self.spec_ids().len() == 0
    }

    fn accepts_id(&self, type_id: TypeId) -> (r: bool) {
        let r = list_contains_id(self.ids.as_slice(), &type_id);
        assert(r == self.spec_accepts(type_id));
        r
    }

    fn is_empty(&self) -> (r: bool) {
        self.ids.len() == 0
    }

    fn as_erased(&self) -> (r: ErasedFilter<EraseError>)
        ensures
            from_list_spec(self.spec_ids(), r),
    {
        ErasedFilter::from_slice(self.ids.as_slice())
    }

    fn into_erased(self) -> (r: ValidErasedFilter)
        ensures
            self.spec_ids().len() == 0 ==> r is Nothing,
            self.spec_ids().len() == 1 ==> r == ValidErasedFilter::Only(self.spec_ids()[0]),
            self.spec_ids().len() >= 2 ==> (r matches ErasedFilter::Callback(v) && v@ == self.spec_ids()),
    {
        if self.ids.len() == 0 {
            ErasedFilter::Nothing
        } else if self.ids.len() == 1 {
            ErasedFilter::Only(self.ids[0])
        } else {
            ErasedFilter::Callback(self.ids)
        }
    }
}

/// The types whose values are text.
pub type StringLike = AnyOf<(String, Box<str>, &'static str, str)>;

/// The types whose values are bytes.
pub type BytesLike = AnyOf<(Vec<u8>, Box<[u8]>, &'static [u8], [u8])>;

/// The filter that accepts the types of text values.
pub fn string_like() -> (r: StringLike)
    ensures
        r.spec_ids().len() == 4,
{
    AnyOf::new()
}

/// The filter that accepts the types of byte values.
pub fn bytes_like() -> (r: BytesLike)
    ensures
        r.spec_ids().len() == 4,
{
    AnyOf::new()
}

/// Accepts the types that both filters accept.
#[derive(Debug, Default, Clone, Copy)]
pub struct And<T, U>(pub T, pub U);

impl<T: TypeFilter, U: TypeFilter> TypeFilter for And<T, U> {
    open spec fn spec_accepts(&self, id: TypeId) -> bool {
        self.0.spec_accepts(id) && self.1.spec_accepts(id)
    }

    /// Empty when either filter reports itself empty.
    open spec fn spec_is_empty(&self) -> bool {
        self.0.spec_is_empty() || self.1.spec_is_empty()
    }

    fn accepts_id(&self, type_id: TypeId) -> (r: bool) {
        let r = self.0.accepts_id(type_id) && self.1.accepts_id(type_id);
        assert(r == self.spec_accepts(type_id));
        r
    }

    fn accepts_value_of<Typ: ?Sized + 'static>(&self) -> (r: bool) {
        let id = type_id_of::<Typ>();
        let r = self.0.accepts_id(id) && self.1.accepts_id(id);
        assert(r == self.spec_accepts(id));
        r
    }

    fn accepts<Typ: ?Sized + 'static>(&self, val: &Typ) -> (r: bool) {
        self.accepts_value_of::<Typ>()
    }

    fn as_erased(&self) -> (r: ErasedFilter<EraseError>) {
        let a = self.0.as_erased();
        let b = self.1.as_erased();
        let r = a.bitand(b);
        proof {
            if r.is_valid() {
                assert forall|id: TypeId| #[trigger] r.allows(id) == self.spec_accepts(id) by {
                    if !a.is_valid() {
                        assert(b is Nothing);
                    } else if !b.is_valid() {
                        assert(a is Nothing);
                    }
                }
            }
        }
        r
    }

    fn is_empty(&self) -> (r: bool) {
        self.0.is_empty() || self.1.is_empty()
    }

    fn into_erased(self) -> (r: ValidErasedFilter) {
        let erased = self.as_erased();
        let ghost g = erased;
        match erased.try_into_valid() {
            Ok(f) => {
                assert forall|id: TypeId| #[trigger] f.allows(id) == self.spec_accepts(id) by {
                    assert(f.allows(id) == g.allows(id));
                }
                f
            },
            Err(_) => {
                let ghost s = self;
                let a = self.0.into_erased();
                let b = self.1.into_erased();
                let r = ErasedFilter::Dynamic(Box::new(DynamicFilter::And(a, b)));
                assert forall|id: TypeId| #[trigger] r.allows(id) == s.spec_accepts(id) by {
                    assert(a.allows(id) == s.0.spec_accepts(id));
                    assert(b.allows(id) == s.1.spec_accepts(id));
                }
                r
            },
        }
    }
}


/// Whether the erased filter holds a single-identifier set.
fn is_stack_set(f: &ErasedFilter<EraseError>) -> (r: bool)
    ensures
        r == (f is AnyOfStack || f is NoneOfStack),
{
    match f {
        ErasedFilter::AnyOfStack(_) | ErasedFilter::NoneOfStack(_) => true,
        _ => false,
    }
}

/// Accepts the types that either filter accepts.
#[derive(Debug, Default, Clone, Copy)]
pub struct Or<T, U>(pub T, pub U);

impl<T: TypeFilter, U: TypeFilter> TypeFilter for Or<T, U> {
    open spec fn spec_accepts(&self, id: TypeId) -> bool {
        self.0.spec_accepts(id) || self.1.spec_accepts(id)
    }

    /// Empty when both filters report themselves empty.
    open spec fn spec_is_empty(&self) -> bool {
        self.0.spec_is_empty() && self.1.spec_is_empty()
    }

    fn accepts_id(&self, type_id: TypeId) -> (r: bool) {
        let r = self.0.accepts_id(type_id) || self.1.accepts_id(type_id);
        assert(r == self.spec_accepts(type_id));
        r
    }

    fn accepts_value_of<Typ: ?Sized + 'static>(&self) -> (r: bool) {
        let id = type_id_of::<Typ>();
        let r = self.0.accepts_id(id) || self.1.accepts_id(id);
        assert(r == self.spec_accepts(id));
        r
    }

    fn accepts<Typ: ?Sized + 'static>(&self, val: &Typ) -> (r: bool) {
        self.accepts_value_of::<Typ>()
    }

    /// The union of the two erased filters; two single-identifier sets that `|` cannot
    /// join give an invalid filter.
    fn as_erased(&self) -> (r: ErasedFilter<EraseError>) {
        let a = self.0.as_erased();
        let b = self.1.as_erased();
        if is_stack_set(&a) && is_stack_set(&b) {
            return ErasedFilter::Invalid(EraseError::Todo);
        }
        let r = a.bitor(b);
        proof {
            if r.is_valid() {
                assert forall|id: TypeId| #[trigger] r.allows(id) == self.spec_accepts(id) by {
                    if !a.is_valid() {
                        assert(r == b || b is Any);
                    } else if !b.is_valid() {
                        assert(r == a || a is Any);
                    }
                }
            }
        }
        r
    }

    fn is_empty(&self) -> (r: bool) {
        self.0.is_empty() && self.1.is_empty()
    }

    fn into_erased(self) -> (r: ValidErasedFilter) {
        let erased = self.as_erased();
        let ghost g = erased;
        match erased.try_into_valid() {
            Ok(f) => {
                assert forall|id: TypeId| #[trigger] f.allows(id) == self.spec_accepts(id) by {
                    assert(f.allows(id) == g.allows(id));
                }
                f
            },
            Err(_) => {
                let ghost s = self;
                let a = self.0.into_erased();
                let b = self.1.into_erased();
                let r = ErasedFilter::Dynamic(Box::new(DynamicFilter::Or(a, b)));
                assert forall|id: TypeId| #[trigger] r.allows(id) == s.spec_accepts(id) by {
                    assert(a.allows(id) == s.0.spec_accepts(id));
                    assert(b.allows(id) == s.1.spec_accepts(id));
                }
                r
            },
        }
    }
}

/// Accepts the types that the inner filter rejects.
#[derive(Debug, Default, Clone, Copy)]
pub struct Not<T>(pub T);

impl<T: TypeFilter> TypeFilter for Not<T> {
    open spec fn spec_accepts(&self, id: TypeId) -> bool {
        !self.0.spec_accepts(id)
    }

    /// A complement does not report itself empty.
    open spec fn spec_is_empty(&self) -> bool {
        false
    }

    fn is_empty(&self) -> (r: bool) {
        false
    }

    fn accepts_id(&self, type_id: TypeId) -> (r: bool) {
        let r = !self.0.accepts_id(type_id);
        assert(r == self.spec_accepts(type_id));
        r
    }

    fn accepts_value_of<Typ: ?Sized + 'static>(&self) -> (r: bool) {
        let id = type_id_of::<Typ>();
        let r = !self.0.accepts_id(id);
        assert(r == self.spec_accepts(id));
        r
    }

    fn accepts<Typ: ?Sized + 'static>(&self, val: &Typ) -> (r: bool) {
        self.accepts_value_of::<Typ>()
    }

    fn as_erased(&self) -> (r: ErasedFilter<EraseError>) {
        let a = self.0.as_erased();
        let r = a.not();
        proof {
            if r.is_valid() {
                assert forall|id: TypeId| #[trigger] r.allows(id) == self.spec_accepts(id) by {
                    assert(a.is_valid());
                }
            }
        }
        r
    }

    fn into_erased(self) -> (r: ValidErasedFilter) {
        let erased = self.as_erased();
        let ghost g = erased;
        match erased.try_into_valid() {
            Ok(f) => {
                assert forall|id: TypeId| #[trigger] f.allows(id) == self.spec_accepts(id) by {
                    assert(f.allows(id) == g.allows(id));
                }
                f
            },
            Err(_) => {
                let ghost s = self;
                let a = self.0.into_erased();
                let r = ErasedFilter::Dynamic(Box::new(DynamicFilter::Not(a)));
                assert forall|id: TypeId| #[trigger] r.allows(id) == s.spec_accepts(id) by {
                    assert(a.allows(id) == s.0.spec_accepts(id));
                }
                r
            },
        }
    }
}

impl<const N: usize> TypeFilter for [TypeId; N] {
    open spec fn spec_accepts(&self, id: TypeId) -> bool {
        self@.contains(id)
    }

    /// Empty when it has no element.
    open spec fn spec_is_empty(&self) -> bool {
        N == 0
    }

    fn accepts_id(&self, type_id: TypeId) -> (r: bool) {
        let r = list_contains_id(self, &type_id);
        assert(r == self.spec_accepts(type_id));
        r
    }

    fn as_erased(&self) -> (r: ErasedFilter<EraseError>)
        ensures
            from_list_spec(self@, r),
    {
        ErasedFilter::from_slice(self)
    }

    fn into_erased(self) -> (r: ValidErasedFilter)
        ensures
            from_list_spec(self@, r),
    {
        ErasedFilter::from_array(self)
    }

    fn is_empty(&self) -> (r: bool) {
        N == 0
    }
}

impl<T: TypeFilter> TypeFilter for Box<T> {
    open spec fn spec_accepts(&self, id: TypeId) -> bool {
        (**self).spec_accepts(id)
    }

    /// Empty when the boxed filter reports itself empty.
    open spec fn spec_is_empty(&self) -> bool {
        (**self).spec_is_empty()
    }

    fn accepts_id(&self, type_id: TypeId) -> (r: bool) {
        let r = (**self).accepts_id(type_id);
        assert(r == self.spec_accepts(type_id));
        r
    }

    fn as_erased(&self) -> (r: ErasedFilter<EraseError>) {
        (**self).as_erased()
    }

    fn is_empty(&self) -> (r: bool) {
        (**self).is_empty()
    }

    fn into_erased(self) -> (r: ValidErasedFilter) {
        (*self).into_erased()
    }
}


/// The element at a machine index.
pub open spec fn seq_at<T>(s: Seq<T>, i: usize) -> T {
    s[i as int]
}

/// Whether the elements are in ascending order of `T`'s `Ord`.
pub open spec fn sorted_by_cmp<T: Ord>(s: Seq<T>) -> bool {
    forall|i: int, j: int| 0 <= i < j < s.len() ==> s[i].cmp_spec(&s[j]) != Ordering::Greater
}

/// Calls `<[T]>::sort_unstable` on the elements of the vector.
///
/// Claims what std documents for a total order: the elements come out in ascending
/// order and are those that went in. The order must be total, since std may panic
/// otherwise.
#[verifier::external_body]
fn sort_unstable<T: Ord>(v: &mut Vec<T>)
    requires
        obeys_cmp::<T>(),
    ensures
        final(v)@.to_multiset() == old(v)@.to_multiset(),
        sorted_by_cmp(final(v)@),
{
    v.sort_unstable();
}

/// A container whose elements are kept in ascending order.
pub struct Sorted<T> {
    container: Vec<T>,
}

impl<T> View for Sorted<T> {
    type V = Seq<T>;

    closed spec fn view(&self) -> Seq<T> {
        self.container@
    }
}

impl<T> Sorted<T> {
    /// Sorts the container and keeps it.
    pub fn new(container: Vec<T>) -> (r: Self)
        where T: Ord,
        requires
            obeys_cmp::<T>(),
        ensures
            r@.to_multiset() == container@.to_multiset(),
            sorted_by_cmp(r@),
    {
        let mut container = container;
        sort_unstable(&mut container);
        Sorted { container }
    }

    /// Keeps a container that is already sorted.
    pub fn new_unchecked(container: Vec<T>) -> (r: Self)
        where T: Ord,
        requires
            sorted_by_cmp(container@),
        ensures
            r@ == container@,
    {
        Sorted { container }
    }

    /// Whether the container holds `value`, found by binary search.
    pub fn contains(&self, value: &T) -> (r: bool)
        where T: Ord,
        requires
            obeys_cmp::<T>(),
            obeys_concrete_eq::<T>(),
            sorted_by_cmp(self@),
        ensures
            r == self@.contains(*value),
    {
        proof {
            reveal(vstd::laws_cmp::obeys_partial_cmp_spec_properties);
            reveal(vstd::laws_cmp::obeys_cmp_partial_ord);
            reveal(vstd::laws_cmp::obeys_cmp_ord);
            reveal(obeys_concrete_eq);
        }
        let ghost s = self@;
        assert(T::obeys_cmp_spec());
        assert(forall|x: T, y: T| #[trigger] x.eq_spec(&y) <==> (x == y));
        let mut lo: usize = 0;
        let mut hi: usize = self.container.len();
        while lo < hi
            invariant
                0 <= lo <= hi <= s.len(),
                s == self.container@,
                T::obeys_cmp_spec(),
                sorted_by_cmp(s),
                forall|x: T, y: T| #[trigger] x.eq_spec(&y) <==> (x == y),
                forall|x: T, y: T| #![trigger x.cmp_spec(&y)]
                    x.partial_cmp_spec(&y) == Some(x.cmp_spec(&y)),
                forall|x: T, y: T| #[trigger] x.partial_cmp_spec(&y) == Some(Ordering::Less)
                    <==> y.partial_cmp_spec(&x) == Some(Ordering::Greater),
                forall|x: T, y: T| #[trigger] x.partial_cmp_spec(&y) == Some(Ordering::Equal)
                    <==> x.eq_spec(&y),
                forall|i: int| 0 <= i < lo ==> s[i] != *value,
                forall|i: int| hi <= i < s.len() ==> s[i] != *value,
            decreases hi - lo,
        {
            let mid = lo + (hi - lo) / 2;
            let c = value.cmp(&self.container[mid]);
            match c {
                Ordering::Equal => {
                    assert(seq_at(s, mid) == *value);
                    return true;
                },
                Ordering::Less => {
                    assert forall|i: int| mid <= i < s.len() implies s[i] != *value by {
                        if s[i] == *value && i > mid {
                            assert(seq_at(s, mid).cmp_spec(&s[i]) != Ordering::Greater);
                        }
                    }
                    hi = mid;
                },
                Ordering::Greater => {
                    assert forall|i: int| 0 <= i <= mid implies s[i] != *value by {
                        if s[i] == *value && i < mid {
                            assert(s[i].cmp_spec(&seq_at(s, mid)) != Ordering::Greater);
                        }
                    }
                    lo = mid + 1;
                },
            }
        }
        false
    }

    /// The elements, in order.
    pub fn iter(&self) -> (r: &[T])
        ensures
            r@ == self@,
    {
        self.container.as_slice()
    }

    /// The container, in order.
    pub fn as_container(&self) -> (r: &Vec<T>)
        ensures
            r@ == self@,
    {
        &self.container
    }

    /// Gives the container back.
    pub fn into_inner(self) -> (r: Vec<T>)
        ensures
            r@ == self@,
    {
        self.container
    }

    /// Collects and sorts the elements.
    pub fn from_iter(items: Vec<T>) -> (r: Self)
        where T: Ord,
        requires
            obeys_cmp::<T>(),
        ensures
            r@.to_multiset() == items@.to_multiset(),
            sorted_by_cmp(r@),
    {
        Self::new(items)
    }
}

impl<T> Default for Sorted<T> {
    fn default() -> (r: Self)
        ensures
            r@ == Seq::<T>::empty(),
    {
        Sorted { container: Vec::new() }
    }
}

impl TypeFilter for Sorted<TypeId> {
    open spec fn spec_accepts(&self, id: TypeId) -> bool {
        self@.contains(id)
    }

    /// A sorted list does not report itself empty.
    open spec fn spec_is_empty(&self) -> bool {
        false
    }

    fn is_empty(&self) -> (r: bool) {
        false
    }

    fn accepts_id(&self, type_id: TypeId) -> (r: bool) {
        let r = list_contains_id(self.container.as_slice(), &type_id);
        assert(r == self.spec_accepts(type_id));
        r
    }

    fn as_erased(&self) -> (r: ErasedFilter<EraseError>)
        ensures
            from_list_spec(self@, r),
    {
        ErasedFilter::from_slice(self.container.as_slice())
    }

    fn into_erased(self) -> (r: ValidErasedFilter)
        ensures
            from_list_spec(self@, r),
    {
        ErasedFilter::from_ids(self.container)
    }
}


/// Accepts the types that the receiver `R` wants.
pub struct AcceptedBy<R: crate::query::receiver::Receiver> {
    accepting: R::Accepting,
}

impl<R: crate::query::receiver::Receiver> AcceptedBy<R> {
    /// The filter of `R` that it holds.
    pub closed spec fn spec_accepting(&self) -> R::Accepting {
        self.accepting
    }

    pub fn new() -> (r: Self) {
        AcceptedBy { accepting: R::accepting() }
    }
}

impl<R: crate::query::receiver::Receiver> Default for AcceptedBy<R> {
    fn default() -> (r: Self) {
        Self::new()
    }
}

impl<R: crate::query::receiver::Receiver> TypeFilter for AcceptedBy<R> {
    open spec fn spec_accepts(&self, id: TypeId) -> bool {
        self.spec_accepting().spec_accepts(id)
    }

    /// Empty when the receiver's filter reports itself empty.
    open spec fn spec_is_empty(&self) -> bool {
        self.spec_accepting().spec_is_empty()
    }

    fn accepts_id(&self, type_id: TypeId) -> (r: bool) {
        let r = self.accepting.accepts_id(type_id);
        assert(r == self.spec_accepts(type_id));
        r
    }

    fn accepts_value_of<T: ?Sized + 'static>(&self) -> (r: bool) {
        let r = self.accepting.accepts_value_of::<T>();
        proof {
            let id = choose|id: TypeId| r == #[trigger] self.accepting.spec_accepts(id);
            assert(r == self.spec_accepts(id));
        }
        r
    }

    fn accepts<T: ?Sized + 'static>(&self, value: &T) -> (r: bool) {
        let r = self.accepting.accepts(value);
        proof {
            let id = choose|id: TypeId| r == #[trigger] self.accepting.spec_accepts(id);
            assert(r == self.spec_accepts(id));
        }
        r
    }

    fn as_erased(&self) -> (r: ErasedFilter<EraseError>) {
        let r = self.accepting.as_erased();
        assert(r.is_valid() ==> forall|id: TypeId| #[trigger] r.allows(id) == self.spec_accepts(id));
        r
    }

    fn into_erased(self) -> (r: ValidErasedFilter) {
        let ghost s = self;
        let r = self.accepting.into_erased();
        assert(forall|id: TypeId| #[trigger] r.allows(id) == s.spec_accepts(id));
        r
    }

    fn is_empty(&self) -> (r: bool) {
        let r = self.accepting.is_empty();
        assert(r ==> forall|id: TypeId| !#[trigger] self.spec_accepts(id));
        r
    }
}

} // verus!
