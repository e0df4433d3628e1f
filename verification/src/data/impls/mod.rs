//! What the standard types provide as data.
use vstd::prelude::*;
use crate::data::{
    Data, Value, ValueView, Visitor, lemma_visit_one, visit_all, values_of, value_views,
    lemma_value_views_push,
};

verus! {

impl Data for bool {
    open spec fn spec_values(&self) -> Seq<ValueView> {
        seq![ValueView::Bool(*self)]
    }

    fn query<V: Visitor>(&self, visitor: &mut V) {
        let value = Value::Bool(*self);
        proof {
            assert(value@ == ValueView::Bool(*self));
        }
        visitor.visit(value);
        proof {
            lemma_visit_one::<V>(old(visitor).deep_view(), ValueView::Bool(*self));
        }
    }
}

/// The value of a character.
fn char_value(c: char) -> (r: Value)
    ensures
        r@ == ValueView::Char(c),
{
    Value::Char(c)
}

impl Data for char {
    open spec fn spec_values(&self) -> Seq<ValueView> {
        seq![ValueView::Char(*self)]
    }

    fn query<V: Visitor>(&self, visitor: &mut V) {
        let value = char_value(*self);
        visitor.visit(value);
        proof {
            lemma_visit_one::<V>(old(visitor).deep_view(), ValueView::Char(*self));
        }
    }
}

impl Data for i8 {
    open spec fn spec_values(&self) -> Seq<ValueView> {
        seq![ValueView::I8(*self)]
    }

    fn query<V: Visitor>(&self, visitor: &mut V) {
        let value = Value::I8(*self);
        proof {
            assert(value@ == ValueView::I8(*self));
        }
        visitor.visit(value);
        proof {
            lemma_visit_one::<V>(old(visitor).deep_view(), ValueView::I8(*self));
        }
    }
}

impl Data for u16 {
    open spec fn spec_values(&self) -> Seq<ValueView> {
        seq![ValueView::U16(*self)]
    }

    fn query<V: Visitor>(&self, visitor: &mut V) {
        let value = Value::U16(*self);
        proof {
            assert(value@ == ValueView::U16(*self));
        }
        visitor.visit(value);
        proof {
            lemma_visit_one::<V>(old(visitor).deep_view(), ValueView::U16(*self));
        }
    }
}

impl Data for i16 {
    open spec fn spec_values(&self) -> Seq<ValueView> {
        seq![ValueView::I16(*self)]
    }

    fn query<V: Visitor>(&self, visitor: &mut V) {
        let value = Value::I16(*self);
        proof {
            assert(value@ == ValueView::I16(*self));
        }
        visitor.visit(value);
        proof {
            lemma_visit_one::<V>(old(visitor).deep_view(), ValueView::I16(*self));
        }
    }
}

impl Data for u32 {
    open spec fn spec_values(&self) -> Seq<ValueView> {
        seq![ValueView::U32(*self)]
    }

    fn query<V: Visitor>(&self, visitor: &mut V) {
        let value = Value::U32(*self);
        proof {
            assert(value@ == ValueView::U32(*self));
        }
        visitor.visit(value);
        proof {
            lemma_visit_one::<V>(old(visitor).deep_view(), ValueView::U32(*self));
        }
    }
}

impl Data for i32 {
    open spec fn spec_values(&self) -> Seq<ValueView> {
        seq![ValueView::I32(*self)]
    }

    fn query<V: Visitor>(&self, visitor: &mut V) {
        let value = Value::I32(*self);
        proof {
            assert(value@ == ValueView::I32(*self));
        }
        visitor.visit(value);
        proof {
            lemma_visit_one::<V>(old(visitor).deep_view(), ValueView::I32(*self));
        }
    }
}

impl Data for u64 {
    open spec fn spec_values(&self) -> Seq<ValueView> {
        seq![ValueView::U64(*self)]
    }

    fn query<V: Visitor>(&self, visitor: &mut V) {
        let value = Value::U64(*self);
        proof {
            assert(value@ == ValueView::U64(*self));
        }
        visitor.visit(value);
        proof {
            lemma_visit_one::<V>(old(visitor).deep_view(), ValueView::U64(*self));
        }
    }
}

impl Data for i64 {
    open spec fn spec_values(&self) -> Seq<ValueView> {
        seq![ValueView::I64(*self)]
    }

    fn query<V: Visitor>(&self, visitor: &mut V) {
        let value = Value::I64(*self);
        proof {
            assert(value@ == ValueView::I64(*self));
        }
        visitor.visit(value);
        proof {
            lemma_visit_one::<V>(old(visitor).deep_view(), ValueView::I64(*self));
        }
    }
}

impl Data for u128 {
    open spec fn spec_values(&self) -> Seq<ValueView> {
        seq![ValueView::U128(*self)]
    }

    fn query<V: Visitor>(&self, visitor: &mut V) {
        let value = Value::U128(*self);
        proof {
            assert(value@ == ValueView::U128(*self));
        }
        visitor.visit(value);
        proof {
            lemma_visit_one::<V>(old(visitor).deep_view(), ValueView::U128(*self));
        }
    }
}

impl Data for i128 {
    open spec fn spec_values(&self) -> Seq<ValueView> {
        seq![ValueView::I128(*self)]
    }

    fn query<V: Visitor>(&self, visitor: &mut V) {
        let value = Value::I128(*self);
        proof {
            assert(value@ == ValueView::I128(*self));
        }
        visitor.visit(value);
        proof {
            lemma_visit_one::<V>(old(visitor).deep_view(), ValueView::I128(*self));
        }
    }
}

impl Data for [u8] {
    open spec fn spec_values(&self) -> Seq<ValueView> {
        seq![ValueView::Bytes(self@)]
    }

    fn query<V: Visitor>(&self, visitor: &mut V) {
        let value = Value::Bytes(vstd::slice::slice_to_vec(self));
        proof {
            assert(value@ == ValueView::Bytes(self@));
        }
        visitor.visit(value);
        proof {
            lemma_visit_one::<V>(old(visitor).deep_view(), ValueView::Bytes(self@));
        }
    }
}

/// The link that a list provides for one of its items: keyed by "NoKey", to the item.
pub open spec fn item_link(item: Seq<ValueView>) -> ValueView {
    ValueView::Link(Some(seq![ValueView::Str("NoKey"@)]), item)
}

impl<T: Data> Data for Vec<T> {
    /// One link per item, in order.
    open spec fn spec_values(&self) -> Seq<ValueView> {
        Seq::new(self@.len(), |i: int| item_link(self@[i].spec_values()))
    }

    fn query<V: Visitor>(&self, visitor: &mut V) {
        let n = self.len();
        let mut i: usize = 0;
        while i < n
            invariant
                n == self@.len(),
                0 <= i <= n,
                visitor.deep_view() == visit_all::<V>(
                    old(visitor).deep_view(),
                    self.spec_values().subrange(0, i as int),
                ),
            decreases n - i,
        {
            let target = values_of(&self[i]).into_values();
            let mut key: Vec<Value> = Vec::new();
            let no_key = Value::Str("NoKey".to_owned());
            proof {
                lemma_value_views_push(key@, no_key);
                assert(no_key@ == ValueView::Str("NoKey"@));
            }
            key.push(no_key);
            let link = Value::Link(Some(key), target);
            proof {
                assert(value_views(key@) =~= seq![ValueView::Str("NoKey"@)]);
                assert(link@ == item_link(self@[i as int].spec_values()));
                let all = self.spec_values();
                assert(all.subrange(0, i + 1) =~= all.subrange(0, i as int).push(link@));
                assert(all.subrange(0, i + 1).drop_last() =~= all.subrange(0, i as int));
            }
            visitor.visit(link);
            i = i + 1;
        }
        proof {
            assert(self.spec_values().subrange(0, n as int) =~= self.spec_values());
        }
    }
}

impl<D: Data> Data for Option<D> {
    /// What it holds provides, if it holds something.
    open spec fn spec_values(&self) -> Seq<ValueView> {
        match self {
            Some(d) => d.spec_values(),
            None => Seq::empty(),
        }
    }

    fn query<V: Visitor>(&self, visitor: &mut V) {
        match self {
            Some(d) => d.query(visitor),
            None => {},
        }
    }
}

impl<D: Data + ?Sized> Data for Box<D> {
    /// A box provides what it holds.
    open spec fn spec_values(&self) -> Seq<ValueView> {
        (**self).spec_values()
    }

    fn query<V: Visitor>(&self, visitor: &mut V) {
        (**self).query(visitor);
    }
}

/// Gives one more value to a visitor that has taken `done` since `start`.
fn visit_next<V: Visitor>(visitor: &mut V, value: Value, Ghost(start): Ghost<V::V>, Ghost(done): Ghost<Seq<ValueView>>)
    requires
        old(visitor).deep_view() == visit_all::<V>(start, done),
    ensures
        final(visitor).deep_view() == visit_all::<V>(start, done.push(value@)),
{
    let ghost v = value@;
    visitor.visit(value);
    proof {
        assert(done.push(v).drop_last() =~= done);
    }
}

/// The value `x` at one width, if the width is at most `bits`.
pub open spec fn at_width(bits: int, width: int, value: ValueView) -> Seq<ValueView> {
    if bits >= width {
        seq![value]
    } else {
        Seq::empty()
    }
}

impl Data for usize {
    /// The value at every unsigned width up to that of `usize`, widest first, each cut
    /// down to its width.
    open spec fn spec_values(&self) -> Seq<ValueView> {
        let x = *self;
        let bits = usize::BITS as int;
        at_width(bits, 128, ValueView::U128(x as u128)) + at_width(bits, 64, ValueView::U64(x as u64))
            + at_width(bits, 32, ValueView::U32(x as u32)) + at_width(bits, 16, ValueView::U16(x as u16))
            + at_width(bits, 8, ValueView::U8(x as u8))
    }

    fn query<V: Visitor>(&self, visitor: &mut V) {
        let x = *self;
        let ghost start = visitor.deep_view();
        let ghost bits = usize::BITS as int;
        let ghost mut done: Seq<ValueView> = Seq::empty();
        if usize::BITS >= 128 {
            visit_next(visitor, Value::U128(x as u128), Ghost(start), Ghost(done));
            proof { done = done.push(ValueView::U128(x as u128)); }
        }
        proof { assert(done =~= at_width(bits, 128, ValueView::U128(x as u128))); }
        let ghost d1 = done;
        if usize::BITS >= 64 {
            visit_next(visitor, Value::U64(x as u64), Ghost(start), Ghost(done));
            proof { done = done.push(ValueView::U64(x as u64)); }
        }
        proof { assert(done =~= d1 + at_width(bits, 64, ValueView::U64(x as u64))); }
        let ghost d2 = done;
        if usize::BITS >= 32 {
            visit_next(visitor, Value::U32(x as u32), Ghost(start), Ghost(done));
            proof { done = done.push(ValueView::U32(x as u32)); }
        }
        proof { assert(done =~= d2 + at_width(bits, 32, ValueView::U32(x as u32))); }
        let ghost d3 = done;
        if usize::BITS >= 16 {
            visit_next(visitor, Value::U16(x as u16), Ghost(start), Ghost(done));
            proof { done = done.push(ValueView::U16(x as u16)); }
        }
        proof { assert(done =~= d3 + at_width(bits, 16, ValueView::U16(x as u16))); }
        let ghost d4 = done;
        if usize::BITS >= 8 {
            visit_next(visitor, Value::U8(x as u8), Ghost(start), Ghost(done));
            proof { done = done.push(ValueView::U8(x as u8)); }
        }
        proof {
            assert(done =~= d4 + at_width(bits, 8, ValueView::U8(x as u8)));
            assert(done =~= self.spec_values());
        }
    }
}

impl Data for isize {
    /// The value at every signed width up to that of `isize`, widest first, each cut
    /// down to its width.
    open spec fn spec_values(&self) -> Seq<ValueView> {
        let x = *self;
        let bits = isize::BITS as int;
        at_width(bits, 128, ValueView::I128(x as i128)) + at_width(bits, 64, ValueView::I64(x as i64))
            + at_width(bits, 32, ValueView::I32(x as i32)) + at_width(bits, 16, ValueView::I16(x as i16))
            + at_width(bits, 8, ValueView::I8(x as i8))
    }

    fn query<V: Visitor>(&self, visitor: &mut V) {
        let x = *self;
        let ghost start = visitor.deep_view();
        let ghost bits = isize::BITS as int;
        let ghost mut done: Seq<ValueView> = Seq::empty();
        if isize::BITS >= 128 {
            visit_next(visitor, Value::I128(x as i128), Ghost(start), Ghost(done));
            proof { done = done.push(ValueView::I128(x as i128)); }
        }
        proof { assert(done =~= at_width(bits, 128, ValueView::I128(x as i128))); }
        let ghost d1 = done;
        if isize::BITS >= 64 {
            visit_next(visitor, Value::I64(x as i64), Ghost(start), Ghost(done));
            proof { done = done.push(ValueView::I64(x as i64)); }
        }
        proof { assert(done =~= d1 + at_width(bits, 64, ValueView::I64(x as i64))); }
        let ghost d2 = done;
        if isize::BITS >= 32 {
            visit_next(visitor, Value::I32(x as i32), Ghost(start), Ghost(done));
            proof { done = done.push(ValueView::I32(x as i32)); }
        }
        proof { assert(done =~= d2 + at_width(bits, 32, ValueView::I32(x as i32))); }
        let ghost d3 = done;
        if isize::BITS >= 16 {
            visit_next(visitor, Value::I16(x as i16), Ghost(start), Ghost(done));
            proof { done = done.push(ValueView::I16(x as i16)); }
        }
        proof { assert(done =~= d3 + at_width(bits, 16, ValueView::I16(x as i16))); }
        let ghost d4 = done;
        if isize::BITS >= 8 {
            visit_next(visitor, Value::I8(x as i8), Ghost(start), Ghost(done));
            proof { done = done.push(ValueView::I8(x as i8)); }
        }
        proof {
            assert(done =~= d4 + at_width(bits, 8, ValueView::I8(x as i8)));
            assert(done =~= self.spec_values());
        }
    }
}

impl Data for () {
    /// The unit value provides no value.
    open spec fn spec_values(&self) -> Seq<ValueView> {
        Seq::empty()
    }

    fn query<V: Visitor>(&self, visitor: &mut V) {
    }
}

impl Data for core::convert::Infallible {
    /// No value of this type exists; it provides nothing.
    open spec fn spec_values(&self) -> Seq<ValueView> {
        Seq::empty()
    }

    fn query<V: Visitor>(&self, visitor: &mut V) {
    }
}

impl<const N: usize> Data for [u8; N] {
    /// An array of bytes provides its bytes.
    open spec fn spec_values(&self) -> Seq<ValueView> {
        seq![ValueView::Bytes(self@)]
    }

    fn query<V: Visitor>(&self, visitor: &mut V) {
        self.as_slice().query(visitor);
    }
}

} // verus!
