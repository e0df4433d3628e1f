//! JSON documents as data: numbers as the integers they hold, arrays and objects as
//! links.
use vstd::prelude::*;
use crate::data::{Data, Value, ValueView, Visitor, visit_all, value_views, lemma_value_views_push};
use crate::data::impls::item_link;

verus! {

/// A JSON number: a non-negative integer, a negative one, or a floating-point number,
/// whose value is not kept.
#[derive(Debug, Clone, Copy, PartialEq, Eq, Structural)]
pub enum JsonNumber {
    PosInt(u64),
    NegInt(i64),
    Float,
}

/// A JSON document.
#[derive(Debug)]
pub enum JsonValue {
    Null,
    Bool(bool),
    Number(JsonNumber),
    Str(String),
    Array(Vec<JsonValue>),
    Object(Vec<(String, JsonValue)>),
}

/// The values an integer number provides: as `i128` and `i64`, and as `u128` and `u64`
/// where it fits each.
pub open spec fn int_values(n: int) -> Seq<ValueView> {
    seq![ValueView::I128(n as i128)]
        + (if i64::MIN <= n <= i64::MAX { seq![ValueView::I64(n as i64)] } else { Seq::empty() })
        + (if n >= 0 { seq![ValueView::U128(n as u128)] } else { Seq::empty() })
        + (if 0 <= n <= u64::MAX { seq![ValueView::U64(n as u64)] } else { Seq::empty() })
}

/// The values a JSON document provides.
pub open spec fn json_values(j: JsonValue) -> Seq<ValueView>
    decreases j,
{
    match j {
        JsonValue::Null => Seq::empty(),
        JsonValue::Bool(b) => seq![ValueView::Bool(b)],
        JsonValue::Number(JsonNumber::PosInt(n)) => int_values(n as int),
        JsonValue::Number(JsonNumber::NegInt(n)) => int_values(n as int),
        JsonValue::Number(JsonNumber::Float) => Seq::empty(),
        JsonValue::Str(s) => seq![ValueView::Str(s@)],
        JsonValue::Array(items) => array_links(items@),
        JsonValue::Object(entries) => object_links(entries@),
    }
}

/// One link per item, keyed by "NoKey", in order.
pub open spec fn array_links(items: Seq<JsonValue>) -> Seq<ValueView>
    decreases items,
{
    if items.len() == 0 {
        Seq::empty()
    } else {
        array_links(items.subrange(0, items.len() - 1)).push(
            item_link(json_values(items[items.len() - 1])),
        )
    }
}

/// One link per entry, keyed by its name, in order.
pub open spec fn object_links(entries: Seq<(String, JsonValue)>) -> Seq<ValueView>
    decreases entries,
{
    if entries.len() == 0 {
        Seq::empty()
    } else {
        let e = entries[entries.len() - 1];
        object_links(entries.subrange(0, entries.len() - 1)).push(
            ValueView::Link(Some(seq![ValueView::Str(e.0@)]), json_values(e.1)),
        )
    }
}

/// Appends `v` to `out`.
fn push_value(out: &mut Vec<Value>, v: Value)
    ensures
        value_views(final(out)@) == value_views(old(out)@).push(v@),
{
    proof {
        lemma_value_views_push(out@, v);
    }
    out.push(v);
}

/// The values an integer number provides.
fn int_value_list(n: i128) -> (r: Vec<Value>)
    requires
        i64::MIN <= n <= u64::MAX,
    ensures
        value_views(r@) == int_values(n as int),
{
    let mut out: Vec<Value> = Vec::new();
    push_value(&mut out, Value::I128(n));
    let ghost a = value_views(out@);
    if n >= i64::MIN as i128 && n <= i64::MAX as i128 {
        push_value(&mut out, Value::I64(n as i64));
    }
    let ghost b = value_views(out@);
    if n >= 0 {
        push_value(&mut out, Value::U128(n as u128));
    }
    let ghost c = value_views(out@);
    if n >= 0 && n <= u64::MAX as i128 {
        push_value(&mut out, Value::U64(n as u64));
    }
    proof {
        assert(value_views(Seq::<Value>::empty()) =~= Seq::<ValueView>::empty());
        assert(a =~= seq![ValueView::I128(n)]);
        assert(value_views(out@) =~= int_values(n as int));
    }
    out
}

/// The values a JSON document provides.
fn json_value_list(j: &JsonValue) -> (r: Vec<Value>)
    ensures
        value_views(r@) == json_values(*j),
    decreases j,
{
    let mut out: Vec<Value> = Vec::new();
    proof {
        assert(value_views(Seq::<Value>::empty()) =~= Seq::<ValueView>::empty());
    }
    match j {
        JsonValue::Null => {},
        JsonValue::Bool(b) => {
            push_value(&mut out, Value::Bool(*b));
            proof {
                assert(value_views(out@) =~= seq![ValueView::Bool(*b)]);
            }
        },
        JsonValue::Number(JsonNumber::PosInt(n)) => {
            out = int_value_list(*n as i128);
        },
        JsonValue::Number(JsonNumber::NegInt(n)) => {
            out = int_value_list(*n as i128);
        },
        JsonValue::Number(JsonNumber::Float) => {},
        JsonValue::Str(s) => {
            push_value(&mut out, Value::Str(s.clone()));
            proof {
                assert(value_views(out@) =~= seq![ValueView::Str(s@)]);
            }
        },
        JsonValue::Array(items) => {
            let n = items.len();
            let mut i: usize = 0;
            while i < n
                invariant
                    n == items@.len(),
                    0 <= i <= n,
                    *j == JsonValue::Array(*items),
                    value_views(out@) == array_links(items@.subrange(0, i as int)),
                decreases n - i,
            {
                proof {
                    assert(decreases_to!(*j => (*j)->Array_0));
                    assert(decreases_to!(*items => items[i as int]));
                }
                let target = json_value_list(&items[i]);
                let mut key: Vec<Value> = Vec::new();
                push_value(&mut key, Value::Str("NoKey".to_owned()));
                let link = Value::Link(Some(key), target);
                proof {
                    assert(value_views(key@) =~= seq![ValueView::Str("NoKey"@)]);
                    let pre = items@.subrange(0, i as int);
                    assert(items@.subrange(0, i + 1).subrange(0, i as int) =~= pre);
                    assert(link@ == item_link(json_values(items@[i as int])));
                }
                push_value(&mut out, link);
                i = i + 1;
            }
            proof {
                assert(items@.subrange(0, n as int) =~= items@);
            }
        },
        JsonValue::Object(entries) => {
            let n = entries.len();
            let mut i: usize = 0;
            while i < n
                invariant
                    n == entries@.len(),
                    0 <= i <= n,
                    *j == JsonValue::Object(*entries),
                    value_views(out@) == object_links(entries@.subrange(0, i as int)),
                decreases n - i,
            {
                proof {
                    assert(decreases_to!(*j => (*j)->Object_0));
                    assert(decreases_to!(*entries => entries[i as int]));
                    assert(decreases_to!(entries[i as int] => entries[i as int].1));
                }
                let target = json_value_list(&entries[i].1);
                let mut key: Vec<Value> = Vec::new();
                push_value(&mut key, Value::Str(entries[i].0.clone()));
                let link = Value::Link(Some(key), target);
                proof {
                    let e = entries@[i as int];
                    assert(value_views(key@) =~= seq![ValueView::Str(e.0@)]);
                    let pre = entries@.subrange(0, i as int);
                    assert(entries@.subrange(0, i + 1).subrange(0, i as int) =~= pre);
                    assert(link@ == ValueView::Link(Some(seq![ValueView::Str(e.0@)]), json_values(e.1)));
                }
                push_value(&mut out, link);
                i = i + 1;
            }
            proof {
                assert(entries@.subrange(0, n as int) =~= entries@);
            }
        },
    }
    out
}

impl Data for JsonValue {
    open spec fn spec_values(&self) -> Seq<ValueView> {
        json_values(*self)
    }

    fn query<V: Visitor>(&self, visitor: &mut V) {
        let values = json_value_list(self);
        let n = values.len();
        let mut i: usize = 0;
        proof {
            crate::data::lemma_value_views(values@);
        }
        while i < n
            invariant
                n == values@.len(),
                0 <= i <= n,
                value_views(values@).len() == n,
                forall|k: int| 0 <= k < n ==> #[trigger] value_views(values@)[k] == values@[k]@,
                value_views(values@) == json_values(*self),
                visitor.deep_view() == visit_all::<V>(
                    old(visitor).deep_view(),
                    value_views(values@).subrange(0, i as int),
                ),
            decreases n - i,
        {
            let v = crate::data::copy_value(&values[i]);
            proof {
                let vs = value_views(values@);
                assert(vs.subrange(0, i + 1).drop_last() =~= vs.subrange(0, i as int));
                assert(vs.subrange(0, i + 1).last() == v@);
            }
            visitor.visit(v);
            i = i + 1;
        }
        proof {
            assert(value_views(values@).subrange(0, n as int) =~= value_views(values@));
        }
    }
}

} // verus!
