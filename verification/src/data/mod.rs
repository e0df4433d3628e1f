//! Data: anything that provides values to a visitor.
//!
//! A piece of data is seen through the sequence of values it provides. Visitors take
//! these values one at a time; what a visitor holds afterwards follows from the values
//! alone.
use vstd::prelude::*;
use crate::id::ID;

pub mod unique;
pub mod impls;
pub mod ext;
pub mod format;
pub mod kernel;
pub mod json;


verus! {

/// One value that data provides.
pub enum Value {
    Bool(bool),
    Char(char),
    U8(u8),
    I8(i8),
    U16(u16),
    I16(i16),
    U32(u32),
    I32(i32),
    U64(u64),
    I64(i64),
    U128(u128),
    I128(i128),
    Str(String),
    Bytes(Vec<u8>),
    Id(ID),
    /// A link: the values of its key, if it has one, and those of its target.
    Link(Option<Vec<Value>>, Vec<Value>),
}

/// A value as contracts see it: text and bytes by their contents.
pub enum ValueView {
    Bool(bool),
    Char(char),
    U8(u8),
    I8(i8),
    U16(u16),
    I16(i16),
    U32(u32),
    I32(i32),
    U64(u64),
    I64(i64),
    U128(u128),
    I128(i128),
    Str(Seq<char>),
    Bytes(Seq<u8>),
    Id(ID),
    Link(Option<Seq<ValueView>>, Seq<ValueView>),
}

/// The view of a value that is not a link.
pub open spec fn plain_view(v: Value) -> ValueView {
    match v {
        Value::Bool(x) => ValueView::Bool(x),
        Value::Char(x) => ValueView::Char(x),
        Value::U8(x) => ValueView::U8(x),
        Value::I8(x) => ValueView::I8(x),
        Value::U16(x) => ValueView::U16(x),
        Value::I16(x) => ValueView::I16(x),
        Value::U32(x) => ValueView::U32(x),
        Value::I32(x) => ValueView::I32(x),
        Value::U64(x) => ValueView::U64(x),
        Value::I64(x) => ValueView::I64(x),
        Value::U128(x) => ValueView::U128(x),
        Value::I128(x) => ValueView::I128(x),
        Value::Str(x) => ValueView::Str(x@),
        Value::Bytes(x) => ValueView::Bytes(x@),
        Value::Id(x) => ValueView::Id(x),
        Value::Link(_, _) => ValueView::Link(None, Seq::empty()),
    }
}

/// The view of a value.
pub open spec fn value_view(v: Value) -> ValueView
    decreases v,
{
    match v {
        Value::Link(k, t) => ValueView::Link(
            match k {
                Some(kv) => Some(value_views(kv@)),
                None => None,
            },
            value_views(t@),
        ),
        _ => plain_view(v),
    }
}

/// The views of a sequence of values.
pub open spec fn value_views(s: Seq<Value>) -> Seq<ValueView>
    decreases s,
{
    if s.len() == 0 {
        Seq::empty()
    } else {
        value_views(s.subrange(0, s.len() - 1)).push(value_view(s[s.len() - 1]))
    }
}

impl View for Value {
    type V = ValueView;

    open spec fn view(&self) -> ValueView {
        value_view(*self)
    }
}

/// The views of a sequence with one more value.
pub proof fn lemma_value_views_push(s: Seq<Value>, x: Value)
    ensures
        value_views(s.push(x)) == value_views(s).push(x@),
{
    assert(s.push(x).subrange(0, s.len() as int) =~= s);
}

/// The views of a sequence are the views of its elements.
pub proof fn lemma_value_views(s: Seq<Value>)
    ensures
        value_views(s).len() == s.len(),
        forall|i: int| 0 <= i < s.len() ==> #[trigger] value_views(s)[i] == s[i]@,
    decreases s.len(),
{
    if s.len() > 0 {
        let init = s.subrange(0, s.len() - 1);
        lemma_value_views(init);
        assert forall|i: int| 0 <= i < s.len() implies #[trigger] value_views(s)[i] == s[i]@ by {
            if i < s.len() - 1 {
                assert(init[i] == s[i]);
            }
        }
    }
}

/// Gathers the values it is given, in order.
pub struct ValueList {
    values: Vec<Value>,
}

impl ValueList {
    /// The values gathered.
    pub closed spec fn spec_values_of(&self) -> Seq<ValueView> {
        value_views(self.values@)
    }

    /// A list with no values.
    pub fn new() -> (r: Self)
        ensures
            r.spec_values_of() == Seq::<ValueView>::empty(),
    {
        ValueList { values: Vec::new() }
    }

    /// A list holding `values`.
    pub fn from_values(values: Vec<Value>) -> (r: Self)
        ensures
            r.spec_values_of() == value_views(values@),
    {
        ValueList { values }
    }

    /// The values gathered.
    pub fn into_values(self) -> (r: Vec<Value>)
        ensures
            value_views(r@) == self.spec_values_of(),
    {
        self.values
    }
}

impl DeepView for ValueList {
    type V = Seq<ValueView>;

    open spec fn deep_view(&self) -> Seq<ValueView> {
        self.spec_values_of()
    }
}

impl Visitor for ValueList {
    /// Appends the value.
    open spec fn spec_visit(state: Seq<ValueView>, value: ValueView) -> Seq<ValueView> {
        state.push(value)
    }

    fn visit(&mut self, value: Value) {
        let ghost before = self.values@;
        let ghost v = value;
        proof {
            lemma_value_views_push(before, v);
        }
        self.values.push(value);
        proof {
            assert(self.values@ == before.push(v));
            assert(value_views(self.values@) == value_views(before).push(v@));
            assert(self.deep_view() == value_views(self.values@));
            assert(v@ == value@);
            assert(old(self).deep_view() == value_views(before));
            assert(<ValueList as Visitor>::spec_visit(value_views(before), v@) == value_views(before).push(v@));
        }
    }
}

impl Data for ValueList {
    /// The values gathered, in order.
    open spec fn spec_values(&self) -> Seq<ValueView> {
        self.spec_values_of()
    }

    fn query<V: Visitor>(&self, visitor: &mut V) {
        let n = self.values.len();
        let mut i: usize = 0;
        while i < n
            invariant
                n == self.values@.len(),
                0 <= i <= n,
                visitor.deep_view() == visit_all::<V>(
                    old(visitor).deep_view(),
                    value_views(self.values@.subrange(0, i as int)),
                ),
            decreases n - i,
        {
            let v = copy_value(&self.values[i]);
            proof {
                let pre = self.values@.subrange(0, i as int);
                assert(self.values@.subrange(0, i + 1) =~= pre.push(self.values@[i as int]));
                lemma_value_views_push(pre, self.values@[i as int]);
                let vs = value_views(pre).push(v@);
                assert(vs.drop_last() =~= value_views(pre));
                assert(vs.last() == v@);
            }
            visitor.visit(v);
            i = i + 1;
        }
        proof {
            assert(self.values@.subrange(0, n as int) =~= self.values@);
        }
    }
}

/// A copy of a value.
pub fn copy_value(v: &Value) -> (r: Value)
    ensures
        r@ == v@,
    decreases v,
{
    match v {
        Value::Bool(x) => Value::Bool(*x),
        Value::Char(x) => Value::Char(*x),
        Value::U8(x) => Value::U8(*x),
        Value::I8(x) => Value::I8(*x),
        Value::U16(x) => Value::U16(*x),
        Value::I16(x) => Value::I16(*x),
        Value::U32(x) => Value::U32(*x),
        Value::I32(x) => Value::I32(*x),
        Value::U64(x) => Value::U64(*x),
        Value::I64(x) => Value::I64(*x),
        Value::U128(x) => Value::U128(*x),
        Value::I128(x) => Value::I128(*x),
        Value::Str(x) => Value::Str(x.clone()),
        Value::Bytes(x) => Value::Bytes(vstd::slice::slice_to_vec(x.as_slice())),
        Value::Id(x) => Value::Id(*x),
        Value::Link(k, t) => {
            let kc = match k {
                Some(kv) => Some(copy_values(kv)),
                None => None,
            };
            Value::Link(kc, copy_values(t))
        },
    }
}

/// A copy of a sequence of values.
pub fn copy_values(s: &Vec<Value>) -> (r: Vec<Value>)
    ensures
        value_views(r@) == value_views(s@),
    decreases s,
{
    let mut out: Vec<Value> = Vec::new();
    let mut i: usize = 0;
    while i < s.len()
        invariant
            0 <= i <= s@.len(),
            value_views(out@) == value_views(s@.subrange(0, i as int)),
        decreases s@.len() - i,
    {
        proof {
            assert(decreases_to!(*s => s[i as int]));
        }
        let c = copy_value(&s[i]);
        proof {
            let pre = s@.subrange(0, i as int);
            assert(s@.subrange(0, i + 1) =~= pre.push(s@[i as int]));
            lemma_value_views_push(pre, s@[i as int]);
            lemma_value_views_push(out@, c);
        }
        out.push(c);
        i = i + 1;
    }
    proof {
        assert(s@.subrange(0, s@.len() as int) =~= s@);
    }
    out
}

/// The values that `d` provides, gathered.
pub fn values_of<D: Data + ?Sized>(d: &D) -> (r: ValueList)
    ensures
        r.spec_values_of() == d.spec_values(),
{
    let mut list = ValueList::new();
    d.query(&mut list);
    proof {
        lemma_visit_list(Seq::empty(), d.spec_values());
        assert(Seq::<ValueView>::empty() + d.spec_values() =~= d.spec_values());
    }
    list
}

/// Gathering values appends them.
pub proof fn lemma_visit_list(state: Seq<ValueView>, values: Seq<ValueView>)
    ensures
        visit_all::<ValueList>(state, values) == state + values,
    decreases values.len(),
{
    if values.len() > 0 {
        lemma_visit_list(state, values.drop_last());
        assert(state + values =~= (state + values.drop_last()).push(values.last()));
    } else {
        assert(state + values =~= state);
    }
}

/// Takes the values that data provides.
///
/// What a visitor holds is seen through its deep view, and `spec_visit` says how one
/// value changes it.
pub trait Visitor: DeepView {
    /// The state the visitor moves to from `state` when it takes `value`.
    spec fn spec_visit(state: Self::V, value: ValueView) -> Self::V;

    /// Takes one value.
    fn visit(&mut self, value: Value)
        ensures
            final(self).deep_view() == Self::spec_visit(old(self).deep_view(), value@),
    ;
}

/// Visiting whole pieces of data rather than single values.
pub trait VisitorExt: Visitor + Sized {
    /// Takes every value that `value` provides, in order.
    fn visit_data<T: Data>(&mut self, value: T)
        ensures
            final(self).deep_view() == visit_all::<Self>(old(self).deep_view(), value.spec_values()),
    {
        value.query(self);
    }

    /// Takes every value that `value` provides, in order.
    fn visit_ref<T: Data + ?Sized>(&mut self, value: &T)
        ensures
            final(self).deep_view() == visit_all::<Self>(old(self).deep_view(), value.spec_values()),
    {
        value.query(self);
    }
}

impl<V: Visitor> VisitorExt for V {
}

/// The state a visitor reaches from `state` by taking `values` in order.
pub open spec fn visit_all<V: Visitor>(state: V::V, values: Seq<ValueView>) -> V::V
    decreases values.len(),
{
    if values.len() == 0 {
        state
    } else {
        V::spec_visit(visit_all::<V>(state, values.drop_last()), values.last())
    }
}

/// The first identifier among `values`, if there is one.
pub open spec fn first_id(values: Seq<ValueView>) -> Option<ID>
    decreases values.len(),
{
    if values.len() == 0 {
        None
    } else {
        match first_id(values.drop_last()) {
            Some(id) => Some(id),
            None => match values.last() {
                ValueView::Id(id) => Some(id),
                _ => None,
            },
        }
    }
}

/// The core trait: anything can be data.
///
/// Data is seen through the values it provides, in order.
pub trait Data {
    /// The values the data provides, in the order it provides them.
    spec fn spec_values(&self) -> Seq<ValueView>;

    /// Gives the data's values, in order, to `visitor`.
    fn query<V: Visitor>(&self, visitor: &mut V)
        ensures
            final(visitor).deep_view() == visit_all::<V>(old(visitor).deep_view(), self.spec_values()),
    ;

    /// The identifier of the data: the first one it provides, if any.
    fn get_id(&self) -> (r: Option<ID>)
        ensures
            r == first_id(self.spec_values()),
    {
        let mut found: Option<ID> = None;
        self.query(&mut found);
        proof {
            lemma_visit_id(None, self.spec_values());
        }
        found
    }
}

/// An identifier visitor keeps what it held, or else takes the first identifier provided.
pub proof fn lemma_visit_id(state: Option<ID>, values: Seq<ValueView>)
    ensures
        visit_all::<Option<ID>>(state, values) == (match state {
            Some(_) => state,
            None => first_id(values),
        }),
    decreases values.len(),
{
    if values.len() > 0 {
        lemma_visit_id(state, values.drop_last());
        let mid = visit_all::<Option<ID>>(state, values.drop_last());
        assert(<Option<ID> as Visitor>::spec_visit(mid, values.last()) == (match mid {
            Some(_) => mid,
            None => match values.last() {
                ValueView::Id(id) => Some(id),
                _ => None,
            },
        }));
    }
}

/// A visitor that takes one value ends up where that one value takes it.
pub proof fn lemma_visit_one<V: Visitor>(state: V::V, value: ValueView)
    ensures
        visit_all::<V>(state, seq![value]) == V::spec_visit(state, value),
{
    let s = seq![value];
    assert(s.drop_last() =~= Seq::<ValueView>::empty());
    assert(visit_all::<V>(state, Seq::<ValueView>::empty()) == state);
    assert(s.last() == value);
}

impl Visitor for Option<ID> {
    /// Keeps the first identifier.
    open spec fn spec_visit(state: Option<ID>, value: ValueView) -> Option<ID> {
        match state {
            Some(_) => state,
            None => match value {
                ValueView::Id(id) => Some(id),
                _ => None,
            },
        }
    }

    fn visit(&mut self, value: Value) {
        if self.is_some() {
            return;
        }
        match value {
            Value::Id(id) => {
                *self = Some(id);
            },
            _ => {},
        }
    }
}

impl Visitor for Option<u8> {
    /// Keeps the last `u8`.
    open spec fn spec_visit(state: Option<u8>, value: ValueView) -> Option<u8> {
        match value {
            ValueView::U8(v) => Some(v),
            _ => state,
        }
    }

    fn visit(&mut self, value: Value) {
        match value {
            Value::U8(v) => {
                *self = Some(v);
            },
            _ => {},
        }
    }
}

impl Visitor for Option<String> {
    /// Keeps the last text.
    open spec fn spec_visit(state: Option<Seq<char>>, value: ValueView) -> Option<Seq<char>> {
        match value {
            ValueView::Str(s) => Some(s),
            _ => state,
        }
    }

    fn visit(&mut self, value: Value) {
        match value {
            Value::Str(s) => {
                *self = Some(s);
            },
            _ => {},
        }
    }
}

impl Visitor for Option<bool> {
    /// Keeps the last `bool`.
    open spec fn spec_visit(state: Option<bool>, value: ValueView) -> Option<bool> {
        match value {
            ValueView::Bool(x) => Some(x),
            _ => state,
        }
    }

    fn visit(&mut self, value: Value) {
        match value {
            Value::Bool(x) => {
                *self = Some(x);
            },
            _ => {},
        }
    }
}

impl Visitor for Option<i8> {
    /// Keeps the last `i8`.
    open spec fn spec_visit(state: Option<i8>, value: ValueView) -> Option<i8> {
        match value {
            ValueView::I8(x) => Some(x),
            _ => state,
        }
    }

    fn visit(&mut self, value: Value) {
        match value {
            Value::I8(x) => {
                *self = Some(x);
            },
            _ => {},
        }
    }
}

impl Visitor for Option<u16> {
    /// Keeps the last `u16`.
    open spec fn spec_visit(state: Option<u16>, value: ValueView) -> Option<u16> {
        match value {
            ValueView::U16(x) => Some(x),
            _ => state,
        }
    }

    fn visit(&mut self, value: Value) {
        match value {
            Value::U16(x) => {
                *self = Some(x);
            },
            _ => {},
        }
    }
}

impl Visitor for Option<i16> {
    /// Keeps the last `i16`.
    open spec fn spec_visit(state: Option<i16>, value: ValueView) -> Option<i16> {
        match value {
            ValueView::I16(x) => Some(x),
            _ => state,
        }
    }

    fn visit(&mut self, value: Value) {
        match value {
            Value::I16(x) => {
                *self = Some(x);
            },
            _ => {},
        }
    }
}

impl Visitor for Option<u32> {
    /// Keeps the last `u32`.
    open spec fn spec_visit(state: Option<u32>, value: ValueView) -> Option<u32> {
        match value {
            ValueView::U32(x) => Some(x),
            _ => state,
        }
    }

    fn visit(&mut self, value: Value) {
        match value {
            Value::U32(x) => {
                *self = Some(x);
            },
            _ => {},
        }
    }
}

impl Visitor for Option<i32> {
    /// Keeps the last `i32`.
    open spec fn spec_visit(state: Option<i32>, value: ValueView) -> Option<i32> {
        match value {
            ValueView::I32(x) => Some(x),
            _ => state,
        }
    }

    fn visit(&mut self, value: Value) {
        match value {
            Value::I32(x) => {
                *self = Some(x);
            },
            _ => {},
        }
    }
}

impl Visitor for Option<u64> {
    /// Keeps the last `u64`.
    open spec fn spec_visit(state: Option<u64>, value: ValueView) -> Option<u64> {
        match value {
            ValueView::U64(x) => Some(x),
            _ => state,
        }
    }

    fn visit(&mut self, value: Value) {
        match value {
            Value::U64(x) => {
                *self = Some(x);
            },
            _ => {},
        }
    }
}

impl Visitor for Option<i64> {
    /// Keeps the last `i64`.
    open spec fn spec_visit(state: Option<i64>, value: ValueView) -> Option<i64> {
        match value {
            ValueView::I64(x) => Some(x),
            _ => state,
        }
    }

    fn visit(&mut self, value: Value) {
        match value {
            Value::I64(x) => {
                *self = Some(x);
            },
            _ => {},
        }
    }
}

impl Visitor for Option<u128> {
    /// Keeps the last `u128`.
    open spec fn spec_visit(state: Option<u128>, value: ValueView) -> Option<u128> {
        match value {
            ValueView::U128(x) => Some(x),
            _ => state,
        }
    }

    fn visit(&mut self, value: Value) {
        match value {
            Value::U128(x) => {
                *self = Some(x);
            },
            _ => {},
        }
    }
}

impl Visitor for Option<i128> {
    /// Keeps the last `i128`.
    open spec fn spec_visit(state: Option<i128>, value: ValueView) -> Option<i128> {
        match value {
            ValueView::I128(x) => Some(x),
            _ => state,
        }
    }

    fn visit(&mut self, value: Value) {
        match value {
            Value::I128(x) => {
                *self = Some(x);
            },
            _ => {},
        }
    }
}

impl Visitor for Option<char> {
    /// Keeps the last `char`.
    open spec fn spec_visit(state: Option<char>, value: ValueView) -> Option<char> {
        match value {
            ValueView::Char(x) => Some(x),
            _ => state,
        }
    }

    fn visit(&mut self, value: Value) {
        match value {
            Value::Char(x) => {
                *self = Some(x);
            },
            _ => {},
        }
    }
}

impl Visitor for Option<Vec<u8>> {
    /// Keeps the last bytes.
    open spec fn spec_visit(state: Option<Seq<u8>>, value: ValueView) -> Option<Seq<u8>> {
        match value {
            ValueView::Bytes(b) => Some(b),
            _ => state,
        }
    }

    fn visit(&mut self, value: Value) {
        match value {
            Value::Bytes(b) => {
                proof {
                    assert(b.deep_view() =~= b@);
                }
                *self = Some(b);
            },
            _ => {},
        }
    }
}

impl Data for u8 {
    open spec fn spec_values(&self) -> Seq<ValueView> {
        seq![ValueView::U8(*self)]
    }

    fn query<V: Visitor>(&self, visitor: &mut V) {
        let value = Value::U8(*self);
        proof {
            assert(value@ == ValueView::U8(*self));
        }
        visitor.visit(value);
        proof {
            lemma_visit_one::<V>(old(visitor).deep_view(), ValueView::U8(*self));
        }
    }
}

impl Data for str {
    open spec fn spec_values(&self) -> Seq<ValueView> {
        seq![ValueView::Str(self@)]
    }

    fn query<V: Visitor>(&self, visitor: &mut V) {
        let value = Value::Str(self.to_owned());
        proof {
            assert(value@ == ValueView::Str(self@));
        }
        visitor.visit(value);
        proof {
            lemma_visit_one::<V>(old(visitor).deep_view(), ValueView::Str(self@));
        }
    }
}

impl Data for String {
    open spec fn spec_values(&self) -> Seq<ValueView> {
        seq![ValueView::Str(self@)]
    }

    fn query<V: Visitor>(&self, visitor: &mut V) {
        let value = Value::Str(self.clone());
        proof {
            assert(value@ == ValueView::Str(self@));
        }
        visitor.visit(value);
        proof {
            lemma_visit_one::<V>(old(visitor).deep_view(), ValueView::Str(self@));
        }
    }
}

impl<D: Data + ?Sized> Data for &D {
    /// A reference provides what it refers to.
    open spec fn spec_values(&self) -> Seq<ValueView> {
        (**self).spec_values()
    }

    fn query<V: Visitor>(&self, visitor: &mut V) {
        (**self).query(visitor);
    }
}

impl Data for ID {
    /// An identifier provides itself.
    open spec fn spec_values(&self) -> Seq<ValueView> {
        seq![ValueView::Id(*self)]
    }

    fn query<V: Visitor>(&self, visitor: &mut V) {
        let value = Value::Id(*self);
        proof {
            assert(value@ == ValueView::Id(*self));
        }
        visitor.visit(value);
        proof {
            lemma_visit_one::<V>(old(visitor).deep_view(), ValueView::Id(*self));
        }
    }
}

} // verus!
