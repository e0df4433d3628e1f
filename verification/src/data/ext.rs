//! Reading data as plain values: a number, a text, its links.
use vstd::prelude::*;
use crate::data::{Data, Value, ValueView, Visitor, ValueList, visit_all, lemma_visit_one};
use crate::text::{is_digit, digit_value, spec_parse_isize, parse_isize};

verus! {

/// The number a value stands for, if it stands for one: `true` is 1 and `false` 0,
/// integers that fit in `isize` stand for themselves, a decimal digit for its value,
/// and a text for the number it reads as.
pub open spec fn number_of(value: ValueView) -> Option<int> {
    match value {
        ValueView::Bool(b) => Some(if b { 1int } else { 0int }),
        ValueView::I8(x) => Some(x as int),
        ValueView::U8(x) => Some(x as int),
        ValueView::I16(x) => Some(x as int),
        ValueView::U16(x) => Some(x as int),
        ValueView::I32(x) => fits_isize(x as int),
        ValueView::U32(x) => fits_isize(x as int),
        ValueView::I64(x) => fits_isize(x as int),
        ValueView::U64(x) => fits_isize(x as int),
        ValueView::I128(x) => fits_isize(x as int),
        ValueView::U128(x) => fits_isize(x as int),
        ValueView::Char(c) => if is_digit(c) {
            Some(digit_value(c) as int)
        } else {
            None
        },
        ValueView::Str(s) => spec_parse_isize(s),
        _ => None,
    }
}

/// `x`, when it fits in `isize`.
pub open spec fn fits_isize(x: int) -> Option<int> {
    if isize::MIN <= x <= isize::MAX {
        Some(x)
    } else {
        None
    }
}

/// Keeps the last number that a value stands for.
pub struct NumberVisitor {
    value: Option<isize>,
}

impl DeepView for NumberVisitor {
    type V = Option<isize>;

    closed spec fn deep_view(&self) -> Option<isize> {
        self.value
    }
}

/// `x` as an `isize`, when it fits.
fn isize_of(x: i128) -> (r: Option<isize>)
    ensures
        match fits_isize(x as int) {
            Some(v) => r == Some(v as isize),
            None => r is None,
        },
{
    if x >= isize::MIN as i128 && x <= isize::MAX as i128 {
        Some(x as isize)
    } else {
        None
    }
}

impl Visitor for NumberVisitor {
    open spec fn spec_visit(state: Option<isize>, value: ValueView) -> Option<isize> {
        match number_of(value) {
            Some(n) => Some(n as isize),
            None => state,
        }
    }

    fn visit(&mut self, value: Value) {
        let n: Option<isize> = match value {
            Value::Bool(b) => Some(if b { 1 } else { 0 }),
            Value::I8(x) => Some(x as isize),
            Value::U8(x) => Some(x as isize),
            Value::I16(x) => Some(x as isize),
            Value::U16(x) => Some(x as isize),
            Value::I32(x) => isize_of(x as i128),
            Value::U32(x) => isize_of(x as i128),
            Value::I64(x) => isize_of(x as i128),
            Value::U64(x) => isize_of(x as i128),
            Value::I128(x) => isize_of(x),
            Value::U128(x) => {
                if x <= isize::MAX as u128 {
                    Some(x as isize)
                } else {
                    None
                }
            },
            Value::Char(c) => {
                if '0' <= c && c <= '9' {
                    Some((c as u32 - '0' as u32) as isize)
                } else {
                    None
                }
            },
            Value::Str(s) => parse_isize(s.as_str()),
            _ => None,
        };
        match n {
            Some(v) => {
                self.value = Some(v);
            },
            None => {},
        }
    }
}

/// Keeps the targets of the links it is given, in order.
pub struct TargetList {
    items: Vec<ValueList>,
}

impl DeepView for TargetList {
    type V = Seq<Seq<ValueView>>;

    closed spec fn deep_view(&self) -> Seq<Seq<ValueView>> {
        self.items@.map_values(|l: ValueList| l.spec_values_of())
    }
}

impl Visitor for TargetList {
    open spec fn spec_visit(state: Seq<Seq<ValueView>>, value: ValueView) -> Seq<Seq<ValueView>> {
        match value {
            ValueView::Link(_, t) => state.push(t),
            _ => state,
        }
    }

    fn visit(&mut self, value: Value) {
        match value {
            Value::Link(_, t) => {
                let item = ValueList::from_values(t);
                let ghost before = self.items@;
                self.items.push(item);
                proof {
                    assert(self.items@.map_values(|l: ValueList| l.spec_values_of()) =~= before.map_values(
                        |l: ValueList| l.spec_values_of(),
                    ).push(item.spec_values_of()));
                }
            },
            _ => {},
        }
    }
}

/// The key a link has when its pairs are taken: its own, or "NoKey".
pub open spec fn key_or_no_key(key: Option<Seq<ValueView>>) -> Seq<ValueView> {
    match key {
        Some(k) => k,
        None => seq![ValueView::Str("NoKey"@)],
    }
}

/// Keeps the key and target of each link it is given, in order.
pub struct ItemList {
    items: Vec<(ValueList, ValueList)>,
}

impl DeepView for ItemList {
    type V = Seq<(Seq<ValueView>, Seq<ValueView>)>;

    closed spec fn deep_view(&self) -> Seq<(Seq<ValueView>, Seq<ValueView>)> {
        self.items@.map_values(|p: (ValueList, ValueList)| (p.0.spec_values_of(), p.1.spec_values_of()))
    }
}

impl Visitor for ItemList {
    open spec fn spec_visit(
        state: Seq<(Seq<ValueView>, Seq<ValueView>)>,
        value: ValueView,
    ) -> Seq<(Seq<ValueView>, Seq<ValueView>)> {
        match value {
            ValueView::Link(k, t) => state.push((key_or_no_key(k), t)),
            _ => state,
        }
    }

    fn visit(&mut self, value: Value) {
        match value {
            Value::Link(k, t) => {
                let key = match k {
                    Some(kv) => ValueList::from_values(kv),
                    None => {
                        let mut no_key = ValueList::new();
                        no_key.visit(Value::Str("NoKey".to_owned()));
                        no_key
                    },
                };
                let target = ValueList::from_values(t);
                let ghost before = self.items@;
                proof {
                    assert(Seq::<ValueView>::empty().push(ValueView::Str("NoKey"@)) =~= seq![ValueView::Str("NoKey"@)]);
                }
                self.items.push((key, target));
                proof {
                    assert(self.items@.map_values(
                        |p: (ValueList, ValueList)| (p.0.spec_values_of(), p.1.spec_values_of()),
                    ) =~= before.map_values(
                        |p: (ValueList, ValueList)| (p.0.spec_values_of(), p.1.spec_values_of()),
                    ).push((key.spec_values_of(), target.spec_values_of())));
                }
            },
            _ => {},
        }
    }
}

/// Whether a link came.
pub struct HasLinks {
    found: bool,
}

impl DeepView for HasLinks {
    type V = bool;

    closed spec fn deep_view(&self) -> bool {
        self.found
    }
}

impl Visitor for HasLinks {
    open spec fn spec_visit(state: bool, value: ValueView) -> bool {
        state || value is Link
    }

    fn visit(&mut self, value: Value) {
        match value {
            Value::Link(_, _) => {
                self.found = true;
            },
            _ => {},
        }
    }
}

/// What a visitor that keeps the last value of one kind holds after `xs`, the values of
/// that kind in order: the last of them, or what it held when there is none.
pub open spec fn last_or<T>(state: Option<T>, xs: Seq<T>) -> Option<T> {
    if xs.len() == 0 {
        state
    } else {
        Some(xs.last())
    }
}

/// The `bool` values among `values`, in order.
pub open spec fn bool_values(values: Seq<ValueView>) -> Seq<bool> {
    values.filter_map(|v: ValueView|
        match v {
            ValueView::Bool(x) => Some(x),
            _ => None,
        })
}

/// Reading a `bool` over `values` ends with the last `bool` value among them, or with what it held
/// when there is none: later values of other kinds do not change it.
pub proof fn lemma_last_bool(state: Option<bool>, values: Seq<ValueView>)
    ensures
        visit_all::<Option<bool>>(state, values) == last_or(state, bool_values(values)),
    decreases values.len(),
{
    if values.len() > 0 {
        lemma_last_bool(state, values.drop_last());
        match values.last() {
            ValueView::Bool(x) => {
                let xs = bool_values(values);
                assert(xs == bool_values(values.drop_last()) + seq![x]);
                assert(xs.last() == x);
            },
            _ => {
                assert(bool_values(values) == bool_values(values.drop_last()));
            },
        }
    } else {
        assert(bool_values(values).len() == 0);
    }
}

/// The `u8` values among `values`, in order.
pub open spec fn u8_values(values: Seq<ValueView>) -> Seq<u8> {
    values.filter_map(|v: ValueView|
        match v {
            ValueView::U8(x) => Some(x),
            _ => None,
        })
}

/// Reading a `u8` over `values` ends with the last `u8` value among them, or with what it held
/// when there is none: later values of other kinds do not change it.
pub proof fn lemma_last_u8(state: Option<u8>, values: Seq<ValueView>)
    ensures
        visit_all::<Option<u8>>(state, values) == last_or(state, u8_values(values)),
    decreases values.len(),
{
    if values.len() > 0 {
        lemma_last_u8(state, values.drop_last());
        match values.last() {
            ValueView::U8(x) => {
                let xs = u8_values(values);
                assert(xs == u8_values(values.drop_last()) + seq![x]);
                assert(xs.last() == x);
            },
            _ => {
                assert(u8_values(values) == u8_values(values.drop_last()));
            },
        }
    } else {
        assert(u8_values(values).len() == 0);
    }
}

/// The `i8` values among `values`, in order.
pub open spec fn i8_values(values: Seq<ValueView>) -> Seq<i8> {
    values.filter_map(|v: ValueView|
        match v {
            ValueView::I8(x) => Some(x),
            _ => None,
        })
}

/// Reading a `i8` over `values` ends with the last `i8` value among them, or with what it held
/// when there is none: later values of other kinds do not change it.
pub proof fn lemma_last_i8(state: Option<i8>, values: Seq<ValueView>)
    ensures
        visit_all::<Option<i8>>(state, values) == last_or(state, i8_values(values)),
    decreases values.len(),
{
    if values.len() > 0 {
        lemma_last_i8(state, values.drop_last());
        match values.last() {
            ValueView::I8(x) => {
                let xs = i8_values(values);
                assert(xs == i8_values(values.drop_last()) + seq![x]);
                assert(xs.last() == x);
            },
            _ => {
                assert(i8_values(values) == i8_values(values.drop_last()));
            },
        }
    } else {
        assert(i8_values(values).len() == 0);
    }
}

/// The `u16` values among `values`, in order.
pub open spec fn u16_values(values: Seq<ValueView>) -> Seq<u16> {
    values.filter_map(|v: ValueView|
        match v {
            ValueView::U16(x) => Some(x),
            _ => None,
        })
}

/// Reading a `u16` over `values` ends with the last `u16` value among them, or with what it held
/// when there is none: later values of other kinds do not change it.
pub proof fn lemma_last_u16(state: Option<u16>, values: Seq<ValueView>)
    ensures
        visit_all::<Option<u16>>(state, values) == last_or(state, u16_values(values)),
    decreases values.len(),
{
    if values.len() > 0 {
        lemma_last_u16(state, values.drop_last());
        match values.last() {
            ValueView::U16(x) => {
                let xs = u16_values(values);
                assert(xs == u16_values(values.drop_last()) + seq![x]);
                assert(xs.last() == x);
            },
            _ => {
                assert(u16_values(values) == u16_values(values.drop_last()));
            },
        }
    } else {
        assert(u16_values(values).len() == 0);
    }
}

/// The `i16` values among `values`, in order.
pub open spec fn i16_values(values: Seq<ValueView>) -> Seq<i16> {
    values.filter_map(|v: ValueView|
        match v {
            ValueView::I16(x) => Some(x),
            _ => None,
        })
}

/// Reading a `i16` over `values` ends with the last `i16` value among them, or with what it held
/// when there is none: later values of other kinds do not change it.
pub proof fn lemma_last_i16(state: Option<i16>, values: Seq<ValueView>)
    ensures
        visit_all::<Option<i16>>(state, values) == last_or(state, i16_values(values)),
    decreases values.len(),
{
    if values.len() > 0 {
        lemma_last_i16(state, values.drop_last());
        match values.last() {
            ValueView::I16(x) => {
                let xs = i16_values(values);
                assert(xs == i16_values(values.drop_last()) + seq![x]);
                assert(xs.last() == x);
            },
            _ => {
                assert(i16_values(values) == i16_values(values.drop_last()));
            },
        }
    } else {
        assert(i16_values(values).len() == 0);
    }
}

/// The `u32` values among `values`, in order.
pub open spec fn u32_values(values: Seq<ValueView>) -> Seq<u32> {
    values.filter_map(|v: ValueView|
        match v {
            ValueView::U32(x) => Some(x),
            _ => None,
        })
}

/// Reading a `u32` over `values` ends with the last `u32` value among them, or with what it held
/// when there is none: later values of other kinds do not change it.
pub proof fn lemma_last_u32(state: Option<u32>, values: Seq<ValueView>)
    ensures
        visit_all::<Option<u32>>(state, values) == last_or(state, u32_values(values)),
    decreases values.len(),
{
    if values.len() > 0 {
        lemma_last_u32(state, values.drop_last());
        match values.last() {
            ValueView::U32(x) => {
                let xs = u32_values(values);
                assert(xs == u32_values(values.drop_last()) + seq![x]);
                assert(xs.last() == x);
            },
            _ => {
                assert(u32_values(values) == u32_values(values.drop_last()));
            },
        }
    } else {
        assert(u32_values(values).len() == 0);
    }
}

/// The `i32` values among `values`, in order.
pub open spec fn i32_values(values: Seq<ValueView>) -> Seq<i32> {
    values.filter_map(|v: ValueView|
        match v {
            ValueView::I32(x) => Some(x),
            _ => None,
        })
}

/// Reading a `i32` over `values` ends with the last `i32` value among them, or with what it held
/// when there is none: later values of other kinds do not change it.
pub proof fn lemma_last_i32(state: Option<i32>, values: Seq<ValueView>)
    ensures
        visit_all::<Option<i32>>(state, values) == last_or(state, i32_values(values)),
    decreases values.len(),
{
    if values.len() > 0 {
        lemma_last_i32(state, values.drop_last());
        match values.last() {
            ValueView::I32(x) => {
                let xs = i32_values(values);
                assert(xs == i32_values(values.drop_last()) + seq![x]);
                assert(xs.last() == x);
            },
            _ => {
                assert(i32_values(values) == i32_values(values.drop_last()));
            },
        }
    } else {
        assert(i32_values(values).len() == 0);
    }
}

/// The `u64` values among `values`, in order.
pub open spec fn u64_values(values: Seq<ValueView>) -> Seq<u64> {
    values.filter_map(|v: ValueView|
        match v {
            ValueView::U64(x) => Some(x),
            _ => None,
        })
}

/// Reading a `u64` over `values` ends with the last `u64` value among them, or with what it held
/// when there is none: later values of other kinds do not change it.
pub proof fn lemma_last_u64(state: Option<u64>, values: Seq<ValueView>)
    ensures
        visit_all::<Option<u64>>(state, values) == last_or(state, u64_values(values)),
    decreases values.len(),
{
    if values.len() > 0 {
        lemma_last_u64(state, values.drop_last());
        match values.last() {
            ValueView::U64(x) => {
                let xs = u64_values(values);
                assert(xs == u64_values(values.drop_last()) + seq![x]);
                assert(xs.last() == x);
            },
            _ => {
                assert(u64_values(values) == u64_values(values.drop_last()));
            },
        }
    } else {
        assert(u64_values(values).len() == 0);
    }
}

/// The `i64` values among `values`, in order.
pub open spec fn i64_values(values: Seq<ValueView>) -> Seq<i64> {
    values.filter_map(|v: ValueView|
        match v {
            ValueView::I64(x) => Some(x),
            _ => None,
        })
}

/// Reading a `i64` over `values` ends with the last `i64` value among them, or with what it held
/// when there is none: later values of other kinds do not change it.
pub proof fn lemma_last_i64(state: Option<i64>, values: Seq<ValueView>)
    ensures
        visit_all::<Option<i64>>(state, values) == last_or(state, i64_values(values)),
    decreases values.len(),
{
    if values.len() > 0 {
        lemma_last_i64(state, values.drop_last());
        match values.last() {
            ValueView::I64(x) => {
                let xs = i64_values(values);
                assert(xs == i64_values(values.drop_last()) + seq![x]);
                assert(xs.last() == x);
            },
            _ => {
                assert(i64_values(values) == i64_values(values.drop_last()));
            },
        }
    } else {
        assert(i64_values(values).len() == 0);
    }
}

/// The `u128` values among `values`, in order.
pub open spec fn u128_values(values: Seq<ValueView>) -> Seq<u128> {
    values.filter_map(|v: ValueView|
        match v {
            ValueView::U128(x) => Some(x),
            _ => None,
        })
}

/// Reading a `u128` over `values` ends with the last `u128` value among them, or with what it held
/// when there is none: later values of other kinds do not change it.
pub proof fn lemma_last_u128(state: Option<u128>, values: Seq<ValueView>)
    ensures
        visit_all::<Option<u128>>(state, values) == last_or(state, u128_values(values)),
    decreases values.len(),
{
    if values.len() > 0 {
        lemma_last_u128(state, values.drop_last());
        match values.last() {
            ValueView::U128(x) => {
                let xs = u128_values(values);
                assert(xs == u128_values(values.drop_last()) + seq![x]);
                assert(xs.last() == x);
            },
            _ => {
                assert(u128_values(values) == u128_values(values.drop_last()));
            },
        }
    } else {
        assert(u128_values(values).len() == 0);
    }
}

/// The `i128` values among `values`, in order.
pub open spec fn i128_values(values: Seq<ValueView>) -> Seq<i128> {
    values.filter_map(|v: ValueView|
        match v {
            ValueView::I128(x) => Some(x),
            _ => None,
        })
}

/// Reading a `i128` over `values` ends with the last `i128` value among them, or with what it held
/// when there is none: later values of other kinds do not change it.
pub proof fn lemma_last_i128(state: Option<i128>, values: Seq<ValueView>)
    ensures
        visit_all::<Option<i128>>(state, values) == last_or(state, i128_values(values)),
    decreases values.len(),
{
    if values.len() > 0 {
        lemma_last_i128(state, values.drop_last());
        match values.last() {
            ValueView::I128(x) => {
                let xs = i128_values(values);
                assert(xs == i128_values(values.drop_last()) + seq![x]);
                assert(xs.last() == x);
            },
            _ => {
                assert(i128_values(values) == i128_values(values.drop_last()));
            },
        }
    } else {
        assert(i128_values(values).len() == 0);
    }
}

/// The text values among `values`, in order.
pub open spec fn string_values(values: Seq<ValueView>) -> Seq<Seq<char>> {
    values.filter_map(|v: ValueView|
        match v {
            ValueView::Str(x) => Some(x),
            _ => None,
        })
}

/// Reading a text over `values` ends with the last text value among them, or with what it held
/// when there is none: later values of other kinds do not change it.
pub proof fn lemma_last_string(state: Option<Seq<char>>, values: Seq<ValueView>)
    ensures
        visit_all::<Option<String>>(state, values) == last_or(state, string_values(values)),
    decreases values.len(),
{
    if values.len() > 0 {
        lemma_last_string(state, values.drop_last());
        match values.last() {
            ValueView::Str(x) => {
                let xs = string_values(values);
                assert(xs == string_values(values.drop_last()) + seq![x]);
                assert(xs.last() == x);
            },
            _ => {
                assert(string_values(values) == string_values(values.drop_last()));
            },
        }
    } else {
        assert(string_values(values).len() == 0);
    }
}

/// The byte values among `values`, in order.
pub open spec fn bytes_values(values: Seq<ValueView>) -> Seq<Seq<u8>> {
    values.filter_map(|v: ValueView|
        match v {
            ValueView::Bytes(x) => Some(x),
            _ => None,
        })
}

/// Reading a byte over `values` ends with the last byte value among them, or with what it held
/// when there is none: later values of other kinds do not change it.
pub proof fn lemma_last_bytes(state: Option<Seq<u8>>, values: Seq<ValueView>)
    ensures
        visit_all::<Option<Vec<u8>>>(state, values) == last_or(state, bytes_values(values)),
    decreases values.len(),
{
    if values.len() > 0 {
        lemma_last_bytes(state, values.drop_last());
        match values.last() {
            ValueView::Bytes(x) => {
                let xs = bytes_values(values);
                assert(xs == bytes_values(values.drop_last()) + seq![x]);
                assert(xs.last() == x);
            },
            _ => {
                assert(bytes_values(values) == bytes_values(values.drop_last()));
            },
        }
    } else {
        assert(bytes_values(values).len() == 0);
    }
}

/// The numbers that `values` stand for, in order.
pub open spec fn numbers(values: Seq<ValueView>) -> Seq<int> {
    values.filter_map(|v: ValueView| number_of(v))
}

/// Reading a number over `values` ends with the number that the last value standing for
/// one stands for, or with what it held when there is none.
pub proof fn lemma_last_number(state: Option<isize>, values: Seq<ValueView>)
    ensures
        visit_all::<NumberVisitor>(state, values) == (if numbers(values).len() == 0 {
            state
        } else {
            Some(numbers(values).last() as isize)
        }),
    decreases values.len(),
{
    if values.len() > 0 {
        lemma_last_number(state, values.drop_last());
        match number_of(values.last()) {
            Some(n) => {
                assert(numbers(values) == numbers(values.drop_last()) + seq![n]);
            },
            None => {
                assert(numbers(values) == numbers(values.drop_last()));
            },
        }
    } else {
        assert(numbers(values).len() == 0);
    }
}

/// What single values stand for: `true` is 1 and `false` 0; an integer of at most 16
/// bits, or one of a wider kind that fits in `isize`, is itself; a wider integer that
/// does not fit stands for nothing; a decimal digit is its value and another character
/// nothing; a text is the number it reads as.
pub proof fn lemma_number_of(x8: u8, y8: i8, x16: u16, y16: i16, x64: u64, y64: i64, x128: u128, y128: i128, c: char, s: Seq<char>)
    ensures
        number_of(ValueView::Bool(true)) == Some(1int),
        number_of(ValueView::Bool(false)) == Some(0int),
        number_of(ValueView::U8(x8)) == Some(x8 as int),
        number_of(ValueView::I8(y8)) == Some(y8 as int),
        number_of(ValueView::U16(x16)) == Some(x16 as int),
        number_of(ValueView::I16(y16)) == Some(y16 as int),
        isize::MIN <= x64 <= isize::MAX <==> number_of(ValueView::U64(x64)) == Some(x64 as int),
        isize::MIN <= y64 <= isize::MAX <==> number_of(ValueView::I64(y64)) == Some(y64 as int),
        !(x64 <= isize::MAX) ==> number_of(ValueView::U64(x64)) is None,
        !(y64 <= isize::MAX && isize::MIN <= y64) ==> number_of(ValueView::I64(y64)) is None,
        x128 <= isize::MAX <==> number_of(ValueView::U128(x128)) == Some(x128 as int),
        !(x128 <= isize::MAX) ==> number_of(ValueView::U128(x128)) is None,
        isize::MIN <= y128 <= isize::MAX <==> number_of(ValueView::I128(y128)) == Some(y128 as int),
        '0' <= c <= '9' ==> number_of(ValueView::Char(c)) == Some(c as int - '0' as int),
        !('0' <= c <= '9') ==> number_of(ValueView::Char(c)) is None,
        number_of(ValueView::Str(s)) == spec_parse_isize(s),
        number_of(ValueView::Link(None, Seq::empty())) is None,
{
}

/// The target of a value, when the value is a link.
pub open spec fn link_target(v: ValueView) -> Option<Seq<ValueView>> {
    match v {
        ValueView::Link(_, t) => Some(t),
        _ => None,
    }
}

/// The targets of the links among `values`, in order.
pub open spec fn link_targets(values: Seq<ValueView>) -> Seq<Seq<ValueView>> {
    values.filter_map(|v: ValueView| link_target(v))
}

/// The key and target of a value, when the value is a link; a link without a key is keyed
/// by the text "NoKey".
pub open spec fn link_pair(v: ValueView) -> Option<(Seq<ValueView>, Seq<ValueView>)> {
    match v {
        ValueView::Link(Some(k), t) => Some((k, t)),
        ValueView::Link(None, t) => Some((seq![ValueView::Str("NoKey"@)], t)),
        _ => None,
    }
}

/// The keys and targets of the links among `values`, in order.
pub open spec fn link_pairs(values: Seq<ValueView>) -> Seq<(Seq<ValueView>, Seq<ValueView>)> {
    values.filter_map(|v: ValueView| link_pair(v))
}

/// Gathering targets over `values` adds the target of each link among them, in order, and
/// nothing for the other values.
pub proof fn lemma_target_list(state: Seq<Seq<ValueView>>, values: Seq<ValueView>)
    ensures
        visit_all::<TargetList>(state, values) == state + link_targets(values),
    decreases values.len(),
{
    if values.len() > 0 {
        lemma_target_list(state, values.drop_last());
        match values.last() {
            ValueView::Link(_, t) => {
                assert(state + link_targets(values) =~= (state + link_targets(values.drop_last())).push(t));
            },
            _ => {
                assert(link_targets(values) == link_targets(values.drop_last()));
            },
        }
    } else {
        assert(state + link_targets(values) =~= state);
    }
}

/// Gathering pairs over `values` adds the key and target of each link among them, in
/// order, and nothing for the other values.
pub proof fn lemma_item_list(state: Seq<(Seq<ValueView>, Seq<ValueView>)>, values: Seq<ValueView>)
    ensures
        visit_all::<ItemList>(state, values) == state + link_pairs(values),
    decreases values.len(),
{
    if values.len() > 0 {
        lemma_item_list(state, values.drop_last());
        match values.last() {
            ValueView::Link(k, t) => {
                assert(state + link_pairs(values) =~= (state + link_pairs(values.drop_last())).push(
                    (key_or_no_key(k), t),
                ));
            },
            _ => {
                assert(link_pairs(values) == link_pairs(values.drop_last()));
            },
        }
    } else {
        assert(state + link_pairs(values) =~= state);
    }
}

/// Whether one of the values is a link.
pub open spec fn has_link(values: Seq<ValueView>) -> bool {
    exists|i: int| 0 <= i < values.len() && #[trigger] values[i] is Link
}

/// Looking for links over `values` finds one exactly when one was found before or one of
/// the values is a link: once found, a link stays found whatever values follow.
pub proof fn lemma_has_links(found: bool, values: Seq<ValueView>)
    ensures
        visit_all::<HasLinks>(found, values) == (found || has_link(values)),
    decreases values.len(),
{
    if values.len() > 0 {
        let init = values.drop_last();
        lemma_has_links(found, init);
        if has_link(init) {
            let i = choose|i: int| 0 <= i < init.len() && #[trigger] init[i] is Link;
            assert(values[i] == init[i]);
        }
        if has_link(values) && !(values.last() is Link) {
            let i = choose|i: int| 0 <= i < values.len() && #[trigger] values[i] is Link;
            assert(i < init.len());
            assert(init[i] == values[i]);
        }
        if values.last() is Link {
            assert(values[values.len() - 1] is Link);
        }
    } else {
        assert(!has_link(values));
    }
}

/// Reading any data as a plain value.
pub trait DataExt: Data {
    /// The last `bool` the data provides.
    fn as_bool(&self) -> (r: Option<bool>)
        ensures
            r == visit_all::<Option<bool>>(None, self.spec_values()),
            r == last_or(None, bool_values(self.spec_values())),
    {
        proof {
            lemma_last_bool(None, self.spec_values());
        }
        let mut r: Option<bool> = None;
        self.query(&mut r);
        r
    }

    /// The last `u8` the data provides.
    fn as_u8(&self) -> (r: Option<u8>)
        ensures
            r == visit_all::<Option<u8>>(None, self.spec_values()),
            r == last_or(None, u8_values(self.spec_values())),
    {
        proof {
            lemma_last_u8(None, self.spec_values());
        }
        let mut r: Option<u8> = None;
        self.query(&mut r);
        r
    }

    /// The last `i8` the data provides.
    fn as_i8(&self) -> (r: Option<i8>)
        ensures
            r == visit_all::<Option<i8>>(None, self.spec_values()),
            r == last_or(None, i8_values(self.spec_values())),
    {
        proof {
            lemma_last_i8(None, self.spec_values());
        }
        let mut r: Option<i8> = None;
        self.query(&mut r);
        r
    }

    /// The last `u16` the data provides.
    fn as_u16(&self) -> (r: Option<u16>)
        ensures
            r == visit_all::<Option<u16>>(None, self.spec_values()),
            r == last_or(None, u16_values(self.spec_values())),
    {
        proof {
            lemma_last_u16(None, self.spec_values());
        }
        let mut r: Option<u16> = None;
        self.query(&mut r);
        r
    }

    /// The last `i16` the data provides.
    fn as_i16(&self) -> (r: Option<i16>)
        ensures
            r == visit_all::<Option<i16>>(None, self.spec_values()),
            r == last_or(None, i16_values(self.spec_values())),
    {
        proof {
            lemma_last_i16(None, self.spec_values());
        }
        let mut r: Option<i16> = None;
        self.query(&mut r);
        r
    }

    /// The last `u32` the data provides.
    fn as_u32(&self) -> (r: Option<u32>)
        ensures
            r == visit_all::<Option<u32>>(None, self.spec_values()),
            r == last_or(None, u32_values(self.spec_values())),
    {
        proof {
            lemma_last_u32(None, self.spec_values());
        }
        let mut r: Option<u32> = None;
        self.query(&mut r);
        r
    }

    /// The last `i32` the data provides.
    fn as_i32(&self) -> (r: Option<i32>)
        ensures
            r == visit_all::<Option<i32>>(None, self.spec_values()),
            r == last_or(None, i32_values(self.spec_values())),
    {
        proof {
            lemma_last_i32(None, self.spec_values());
        }
        let mut r: Option<i32> = None;
        self.query(&mut r);
        r
    }

    /// The last `u64` the data provides.
    fn as_u64(&self) -> (r: Option<u64>)
        ensures
            r == visit_all::<Option<u64>>(None, self.spec_values()),
            r == last_or(None, u64_values(self.spec_values())),
    {
        proof {
            lemma_last_u64(None, self.spec_values());
        }
        let mut r: Option<u64> = None;
        self.query(&mut r);
        r
    }

    /// The last `i64` the data provides.
    fn as_i64(&self) -> (r: Option<i64>)
        ensures
            r == visit_all::<Option<i64>>(None, self.spec_values()),
            r == last_or(None, i64_values(self.spec_values())),
    {
        proof {
            lemma_last_i64(None, self.spec_values());
        }
        let mut r: Option<i64> = None;
        self.query(&mut r);
        r
    }

    /// The last `u128` the data provides.
    fn as_u128(&self) -> (r: Option<u128>)
        ensures
            r == visit_all::<Option<u128>>(None, self.spec_values()),
            r == last_or(None, u128_values(self.spec_values())),
    {
        proof {
            lemma_last_u128(None, self.spec_values());
        }
        let mut r: Option<u128> = None;
        self.query(&mut r);
        r
    }

    /// The last `i128` the data provides.
    fn as_i128(&self) -> (r: Option<i128>)
        ensures
            r == visit_all::<Option<i128>>(None, self.spec_values()),
            r == last_or(None, i128_values(self.spec_values())),
    {
        proof {
            lemma_last_i128(None, self.spec_values());
        }
        let mut r: Option<i128> = None;
        self.query(&mut r);
        r
    }

    /// The last text the data provides.
    fn as_string(&self) -> (r: Option<String>)
        ensures
            r.deep_view() == visit_all::<Option<String>>(None, self.spec_values()),
            r.deep_view() == last_or(None, string_values(self.spec_values())),
    {
        proof {
            lemma_last_string(None, self.spec_values());
        }
        let mut r: Option<String> = None;
        self.query(&mut r);
        r
    }

    /// The last bytes the data provides.
    fn as_bytes(&self) -> (r: Option<Vec<u8>>)
        ensures
            r.deep_view() == visit_all::<Option<Vec<u8>>>(None, self.spec_values()),
            r.deep_view() == last_or(None, bytes_values(self.spec_values())),
    {
        proof {
            lemma_last_bytes(None, self.spec_values());
        }
        let mut r: Option<Vec<u8>> = None;
        self.query(&mut r);
        r
    }

    /// The number that the last value standing for one stands for.
    fn as_number(&self) -> (r: Option<isize>)
        ensures
            r == visit_all::<NumberVisitor>(None, self.spec_values()),
            r == (if numbers(self.spec_values()).len() == 0 {
                None
            } else {
                Some(numbers(self.spec_values()).last() as isize)
            }),
    {
        proof {
            lemma_last_number(None, self.spec_values());
        }
        let mut req = NumberVisitor { value: None };
        self.query(&mut req);
        req.value
    }

    /// The targets of the data's links, in order.
    fn as_list(&self) -> (r: Vec<ValueList>)
        ensures
            r@.map_values(|l: ValueList| l.spec_values_of()) == visit_all::<TargetList>(
                Seq::empty(),
                self.spec_values(),
            ),
            r@.map_values(|l: ValueList| l.spec_values_of()) == link_targets(self.spec_values()),
    {
        proof {
            lemma_target_list(Seq::empty(), self.spec_values());
            assert(Seq::<Seq<ValueView>>::empty() + link_targets(self.spec_values()) =~= link_targets(self.spec_values()));
        }
        let mut req = TargetList { items: Vec::new() };
        proof {
            assert(req.items@.map_values(|l: ValueList| l.spec_values_of()) =~= Seq::<Seq<ValueView>>::empty());
        }
        self.query(&mut req);
        req.items
    }

    /// The keys and targets of the data's links, in order; a link without a key has the
    /// key "NoKey".
    fn as_items(&self) -> (r: Vec<(ValueList, ValueList)>)
        ensures
            r@.map_values(|p: (ValueList, ValueList)| (p.0.spec_values_of(), p.1.spec_values_of()))
                == visit_all::<ItemList>(Seq::empty(), self.spec_values()),
            r@.map_values(|p: (ValueList, ValueList)| (p.0.spec_values_of(), p.1.spec_values_of()))
                == link_pairs(self.spec_values()),
    {
        proof {
            lemma_item_list(Seq::empty(), self.spec_values());
            assert(Seq::<(Seq<ValueView>, Seq<ValueView>)>::empty() + link_pairs(self.spec_values())
                =~= link_pairs(self.spec_values()));
        }
        let mut req = ItemList { items: Vec::new() };
        proof {
            assert(req.items@.map_values(
                |p: (ValueList, ValueList)| (p.0.spec_values_of(), p.1.spec_values_of()),
            ) =~= Seq::<(Seq<ValueView>, Seq<ValueView>)>::empty());
        }
        self.query(&mut req);
        req.items
    }

    /// Whether the data provides a link.
    fn has_links(&self) -> (r: bool)
        ensures
            r == visit_all::<HasLinks>(false, self.spec_values()),
            r == has_link(self.spec_values()),
    {
        let mut req = HasLinks { found: false };
        self.query(&mut req);
        proof {
            lemma_has_links(false, self.spec_values());
        }
        req.found
    }
}

impl<T: Data + ?Sized> DataExt for T {
}

/// Data that provides a single plain value reads back as that value: a `bool` as
/// `as_bool`, each integer as its own `as_..`, a `char` as `as_char`, a text as
/// `as_string`.
pub proof fn lemma_read_back(
    b: bool,
    c: char,
    x8: u8,
    y8: i8,
    x16: u16,
    y16: i16,
    x32: u32,
    y32: i32,
    x64: u64,
    y64: i64,
    x128: u128,
    y128: i128,
    s: String,
)
    ensures
        visit_all::<Option<bool>>(None, b.spec_values()) == Some(b),
        visit_all::<Option<char>>(None, c.spec_values()) == Some(c),
        visit_all::<Option<u8>>(None, x8.spec_values()) == Some(x8),
        visit_all::<Option<i8>>(None, y8.spec_values()) == Some(y8),
        visit_all::<Option<u16>>(None, x16.spec_values()) == Some(x16),
        visit_all::<Option<i16>>(None, y16.spec_values()) == Some(y16),
        visit_all::<Option<u32>>(None, x32.spec_values()) == Some(x32),
        visit_all::<Option<i32>>(None, y32.spec_values()) == Some(y32),
        visit_all::<Option<u64>>(None, x64.spec_values()) == Some(x64),
        visit_all::<Option<i64>>(None, y64.spec_values()) == Some(y64),
        visit_all::<Option<u128>>(None, x128.spec_values()) == Some(x128),
        visit_all::<Option<i128>>(None, y128.spec_values()) == Some(y128),
        visit_all::<Option<String>>(None, s.spec_values()) == Some(s@),
{
    lemma_visit_one::<Option<bool>>(None, ValueView::Bool(b));
    lemma_visit_one::<Option<char>>(None, ValueView::Char(c));
    lemma_visit_one::<Option<u8>>(None, ValueView::U8(x8));
    lemma_visit_one::<Option<i8>>(None, ValueView::I8(y8));
    lemma_visit_one::<Option<u16>>(None, ValueView::U16(x16));
    lemma_visit_one::<Option<i16>>(None, ValueView::I16(y16));
    lemma_visit_one::<Option<u32>>(None, ValueView::U32(x32));
    lemma_visit_one::<Option<i32>>(None, ValueView::I32(y32));
    lemma_visit_one::<Option<u64>>(None, ValueView::U64(x64));
    lemma_visit_one::<Option<i64>>(None, ValueView::I64(y64));
    lemma_visit_one::<Option<u128>>(None, ValueView::U128(x128));
    lemma_visit_one::<Option<i128>>(None, ValueView::I128(y128));
    lemma_visit_one::<Option<String>>(None, ValueView::Str(s@));
}

} // verus!
