//! Data that is told apart by its identifier.
use vstd::prelude::*;
use crate::data::{Data, ValueView, Visitor, Value, first_id, visit_all};
use crate::id::ID;

verus! {

/// Why data could not be made unique.
#[derive(Debug, Clone, Copy, PartialEq, Eq, Structural)]
pub enum Error {
    /// The data provides no identifier.
    MissingID,
}

impl Error {
    /// The message of the error.
    pub fn message(&self) -> (r: &'static str)
        ensures
            r@ == "Missing ID"@,
    {
        proof {
            reveal_strlit("Missing ID");
        }
        "Missing ID"
    }
}

/// Something that is told apart by its identifier.
pub trait Unique {
    /// Its identifier.
    spec fn spec_id(&self) -> ID;

    /// Its identifier.
    fn id(&self) -> (r: ID)
        ensures
            r == self.spec_id(),
    ;
}

/// Data together with an identifier, so that it is always unique.
///
/// The identifier is the one the data provides, when it provides one.
pub struct Fixed<D> {
    data: D,
    id: ID,
}

impl<D: Data> Fixed<D> {
    /// The data it holds.
    pub closed spec fn spec_data(&self) -> D {
        self.data
    }

    /// The identifier it holds.
    pub closed spec fn spec_fixed_id(&self) -> ID {
        self.id
    }

    /// Makes the data unique by the identifier it provides; fails when it provides none.
    pub fn try_new(data: D) -> (r: Result<Self, Error>)
        ensures
            match first_id(data.spec_values()) {
                Some(id) => r matches Ok(f) && f.spec_data() == data && f.spec_fixed_id() == id,
                None => r == Err::<Self, Error>(Error::MissingID),
            },
    {
        match data.get_id() {
            Some(id) => Ok(Fixed { data, id }),
            None => Err(Error::MissingID),
        }
    }

    /// Makes the data unique by the identifier it provides, or by `id` when it provides none.
    pub fn new(data: D, id: ID) -> (r: Self)
        ensures
            r.spec_data() == data,
            r.spec_fixed_id() == (match first_id(data.spec_values()) {
                Some(i) => i,
                None => id,
            }),
    {
        let id = match data.get_id() {
            Some(i) => i,
            None => id,
        };
        Fixed { data, id }
    }

    /// Makes the data unique by the identifier it provides, or by the one `f` makes when
    /// it provides none; `f` is called only then.
    pub fn new_with<F: FnOnce() -> ID>(data: D, f: F) -> (r: Self)
        requires
            first_id(data.spec_values()) is None ==> f.requires(()),
        ensures
            r.spec_data() == data,
            match first_id(data.spec_values()) {
                Some(i) => r.spec_fixed_id() == i,
                None => f.ensures((), r.spec_fixed_id()),
            },
    {
        let id = match data.get_id() {
            Some(i) => i,
            None => f(),
        };
        Fixed { data, id }
    }

    /// Makes the data unique by the identifier it provides, or by a random one when it
    /// provides none.
    pub fn new_random(data: D) -> (r: Self)
        ensures
            r.spec_data() == data,
            first_id(data.spec_values()) matches Some(i) ==> r.spec_fixed_id() == i,
    {
        let id = match data.get_id() {
            Some(i) => i,
            None => ID::random(),
        };
        Fixed { data, id }
    }

    /// The data it holds.
    pub fn as_ref(&self) -> (r: &D)
        ensures
            *r == self.spec_data(),
    {
        &self.data
    }
}

impl<D: Data> Data for Fixed<D> {
    /// Its identifier first, then the values of the data.
    open spec fn spec_values(&self) -> Seq<ValueView> {
        seq![ValueView::Id(self.spec_fixed_id())] + self.spec_data().spec_values()
    }

    fn query<V: Visitor>(&self, visitor: &mut V) {
        visitor.visit(Value::Id(self.id));
        let ghost mid = visitor.deep_view();
        self.data.query(visitor);
        proof {
            crate::data::lemma_visit_one::<V>(old(visitor).deep_view(), ValueView::Id(self.id));
            lemma_visit_concat::<V>(
                old(visitor).deep_view(),
                seq![ValueView::Id(self.id)],
                self.data.spec_values(),
            );
        }
    }

    fn get_id(&self) -> (r: Option<ID>) {
        proof {
            let s = seq![ValueView::Id(self.id)];
            lemma_first_id_concat(s, self.data.spec_values());
            assert(s.drop_last() =~= Seq::<ValueView>::empty());
            assert(first_id(Seq::<ValueView>::empty()) is None);
        }
        Some(self.id)
    }
}

impl<D: Data> Unique for Fixed<D> {
    open spec fn spec_id(&self) -> ID {
        self.spec_fixed_id()
    }

    fn id(&self) -> (r: ID) {
        self.id
    }
}

/// Visiting two runs of values one after the other is visiting them joined.
pub proof fn lemma_visit_concat<V: Visitor>(state: V::V, a: Seq<ValueView>, b: Seq<ValueView>)
    ensures
        visit_all::<V>(visit_all::<V>(state, a), b) == visit_all::<V>(state, a + b),
    decreases b.len(),
{
    if b.len() == 0 {
        assert(a + b =~= a);
    } else {
        lemma_visit_concat::<V>(state, a, b.drop_last());
        assert((a + b).drop_last() =~= a + b.drop_last());
        assert((a + b).last() == b.last());
    }
}

/// The first identifier of joined runs is the one of the first run, if it has one.
pub proof fn lemma_first_id_concat(a: Seq<ValueView>, b: Seq<ValueView>)
    ensures
        first_id(a + b) == (match first_id(a) {
            Some(i) => Some(i),
            None => first_id(b),
        }),
    decreases b.len(),
{
    if b.len() == 0 {
        assert(a + b =~= a);
    } else {
        lemma_first_id_concat(a, b.drop_last());
        assert((a + b).drop_last() =~= a + b.drop_last());
        assert((a + b).last() == b.last());
    }
}

/// Ways to make data unique.
pub trait MaybeUnique: Data + Sized {
    /// Makes the data unique by the identifier it provides; fails when it provides none.
    fn try_into_unique(self) -> (r: Result<Fixed<Self>, Error>)
        ensures
            match first_id(self.spec_values()) {
                Some(id) => r matches Ok(f) && f.spec_data() == self && f.spec_fixed_id() == id,
                None => r == Err::<Fixed<Self>, Error>(Error::MissingID),
            },
    {
        Fixed::try_new(self)
    }

    /// Makes the data unique by the identifier it provides, or by `id`.
    fn into_unique(self, id: ID) -> (r: Fixed<Self>)
        ensures
            r.spec_data() == self,
            r.spec_fixed_id() == (match first_id(self.spec_values()) {
                Some(i) => i,
                None => id,
            }),
    {
        Fixed::new(self, id)
    }
}

impl<U: Unique + ?Sized> Unique for &U {
    /// A reference has the identifier of what it refers to.
    open spec fn spec_id(&self) -> ID {
        (**self).spec_id()
    }

    fn id(&self) -> (r: ID) {
        (**self).id()
    }
}

impl<U: Unique + ?Sized> Unique for Box<U> {
    /// A box has the identifier of what it holds.
    open spec fn spec_id(&self) -> ID {
        (**self).spec_id()
    }

    fn id(&self) -> (r: ID) {
        (**self).id()
    }
}

impl<D: Data> MaybeUnique for D {
}

} // verus!
