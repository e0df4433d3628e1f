//! Selectors: boolean conditions on data and on links.
use vstd::prelude::*;
use crate::data::{Data, Value, ValueView, Visitor, first_id, visit_all};
use crate::data::unique::Unique;
use crate::id::ID;
use crate::links::Link;
use crate::text::str_eq;

verus! {

/// A condition on objects of type `On`.
pub trait Selector<On: ?Sized>: View + Sized {
    /// Whether the selector holds of `obj`.
    spec fn spec_selects(&self, obj: &On) -> bool;

    /// Whether asking the selector about `obj` reaches a condition that cannot be decided.
    spec fn spec_undecided(&self, obj: &On) -> bool;

    /// The answer the selector gives whatever it is asked about, if it has one.
    spec fn spec_as_bool(&self) -> Option<bool>;

    /// Whether simplifying the selector runs to its end.
    spec fn spec_optimizable(&self) -> bool;

    /// The selector, seen through its view, after simplification.
    spec fn spec_optimized(view: Self::V) -> Self::V;

    /// Whether the selector holds of `obj`.
    fn selects(&self, obj: &On) -> (r: bool)
        requires
            !self.spec_undecided(obj),
        ensures
            r == self.spec_selects(obj),
    ;

    /// The answer the selector gives whatever it is asked about, if it has one.
    fn as_bool(&self) -> (r: Option<bool>)
        ensures
            r == self.spec_as_bool(),
    ;

    /// Simplifies the selector.
    fn optimize(&mut self)
        requires
            old(self).spec_optimizable(),
        ensures
            final(self)@ == Self::spec_optimized(old(self)@),
    ;
}

/// Selects text equal to `search`.
#[derive(Debug)]
pub struct TextSelector {
    pub search: String,
}

impl View for TextSelector {
    type V = Seq<char>;

    /// The text it looks for.
    open spec fn view(&self) -> Seq<char> {
        self.search@
    }
}

impl From<String> for TextSelector {
    fn from(value: String) -> (r: Self) {
        TextSelector { search: value }
    }
}

impl vstd::std_specs::convert::FromSpecImpl<String> for TextSelector {
    open spec fn obeys_from_spec() -> bool {
        true
    }

    open spec fn from_spec(v: String) -> Self {
        TextSelector { search: v }
    }
}

impl From<&str> for TextSelector {
    fn from(value: &str) -> (r: Self)
        ensures
            r@ == value@,
    {
        TextSelector { search: value.to_owned() }
    }
}

impl vstd::std_specs::convert::FromSpecImpl<&str> for TextSelector {
    /// The selector's text is a copy, so the result is known only by its view.
    open spec fn obeys_from_spec() -> bool {
        false
    }

    open spec fn from_spec(v: &str) -> Self {
        arbitrary()
    }
}

impl Selector<str> for TextSelector {
    open spec fn spec_selects(&self, obj: &str) -> bool {
        self.search@ == obj@
    }

    open spec fn spec_undecided(&self, obj: &str) -> bool {
        false
    }

    open spec fn spec_as_bool(&self) -> Option<bool> {
        None
    }

    open spec fn spec_optimizable(&self) -> bool {
        true
    }

    open spec fn spec_optimized(view: Seq<char>) -> Seq<char> {
        view
    }

    fn selects(&self, obj: &str) -> (r: bool) {
        str_eq(self.search.as_str(), obj)
    }

    fn as_bool(&self) -> (r: Option<bool>) {
        None
    }

    fn optimize(&mut self) {
    }
}

impl Selector<String> for TextSelector {
    open spec fn spec_selects(&self, obj: &String) -> bool {
        self.search@ == obj@
    }

    open spec fn spec_undecided(&self, obj: &String) -> bool {
        false
    }

    open spec fn spec_as_bool(&self) -> Option<bool> {
        None
    }

    open spec fn spec_optimizable(&self) -> bool {
        true
    }

    open spec fn spec_optimized(view: Seq<char>) -> Seq<char> {
        view
    }

    fn selects(&self, obj: &String) -> (r: bool) {
        str_eq(self.search.as_str(), obj.as_str())
    }

    fn as_bool(&self) -> (r: Option<bool>) {
        None
    }

    fn optimize(&mut self) {
    }
}

/// A condition on data.
#[derive(Debug)]
#[non_exhaustive]
pub enum DataSelector {
    /// Holds of everything.
    Any,
    /// Holds when one of the selectors holds.
    Or(Vec<DataSelector>),
    /// Holds when all of the selectors hold.
    And(Vec<DataSelector>),
    /// Holds when the selector does not.
    Not(Box<DataSelector>),
    /// Holds of data that provides the text.
    Text(TextSelector),
    /// Holds of data that provides an identifier.
    Unique,
    /// Holds of data whose identifier is this one.
    Id(ID),
    /// Holds of data whose identifier is not this one.
    NotId(ID),
    /// A condition on the links of the data; not decided.
    Linked(Box<LinkSelector>),
    /// Holds of nothing.
    Nothing,
}

/// A condition on links.
#[derive(Debug)]
#[non_exhaustive]
pub enum LinkSelector {
    /// Holds of every link.
    Any,
    /// Holds of links with a key that the selector selects.
    Key(DataSelector),
    /// Holds of links whose target the selector selects.
    Target(DataSelector),
    /// Holds when one of the selectors holds.
    Or(Vec<LinkSelector>),
    /// Holds when all of the selectors hold.
    And(Vec<LinkSelector>),
    /// Holds when the selector does not.
    Not(Box<LinkSelector>),
    /// Holds of no link.
    Nothing,
}

/// A data selector as contracts see it.
pub enum DataSelectorView {
    Any,
    Or(Seq<DataSelectorView>),
    And(Seq<DataSelectorView>),
    Not(Box<DataSelectorView>),
    Text(Seq<char>),
    Unique,
    Id(ID),
    NotId(ID),
    Linked(Box<LinkSelectorView>),
    Nothing,
}

/// A link selector as contracts see it.
pub enum LinkSelectorView {
    Any,
    Key(DataSelectorView),
    Target(DataSelectorView),
    Or(Seq<LinkSelectorView>),
    And(Seq<LinkSelectorView>),
    Not(Box<LinkSelectorView>),
    Nothing,
}

/// The view of a data selector.
pub open spec fn data_view(s: DataSelector) -> DataSelectorView
    decreases s,
{
    match s {
        DataSelector::Any => DataSelectorView::Any,
        DataSelector::Or(v) => DataSelectorView::Or(data_views(v@)),
        DataSelector::And(v) => DataSelectorView::And(data_views(v@)),
        DataSelector::Not(b) => DataSelectorView::Not(Box::new(data_view(*b))),
        DataSelector::Text(t) => DataSelectorView::Text(t.search@),
        DataSelector::Unique => DataSelectorView::Unique,
        DataSelector::Id(id) => DataSelectorView::Id(id),
        DataSelector::NotId(id) => DataSelectorView::NotId(id),
        DataSelector::Linked(b) => DataSelectorView::Linked(Box::new(link_view(*b))),
        DataSelector::Nothing => DataSelectorView::Nothing,
    }
}

/// The views of a sequence of data selectors.
pub open spec fn data_views(s: Seq<DataSelector>) -> Seq<DataSelectorView>
    decreases s,
{
    if s.len() == 0 {
        Seq::empty()
    } else {
        data_views(s.subrange(0, s.len() - 1)).push(data_view(s[s.len() - 1]))
    }
}

/// The view of a link selector.
pub open spec fn link_view(s: LinkSelector) -> LinkSelectorView
    decreases s,
{
    match s {
        LinkSelector::Any => LinkSelectorView::Any,
        LinkSelector::Key(d) => LinkSelectorView::Key(data_view(d)),
        LinkSelector::Target(d) => LinkSelectorView::Target(data_view(d)),
        LinkSelector::Or(v) => LinkSelectorView::Or(link_views(v@)),
        LinkSelector::And(v) => LinkSelectorView::And(link_views(v@)),
        LinkSelector::Not(b) => LinkSelectorView::Not(Box::new(link_view(*b))),
        LinkSelector::Nothing => LinkSelectorView::Nothing,
    }
}

/// The views of a sequence of link selectors.
pub open spec fn link_views(s: Seq<LinkSelector>) -> Seq<LinkSelectorView>
    decreases s,
{
    if s.len() == 0 {
        Seq::empty()
    } else {
        link_views(s.subrange(0, s.len() - 1)).push(link_view(s[s.len() - 1]))
    }
}

impl View for DataSelector {
    type V = DataSelectorView;

    open spec fn view(&self) -> DataSelectorView {
        data_view(*self)
    }
}

impl View for LinkSelector {
    type V = LinkSelectorView;

    open spec fn view(&self) -> LinkSelectorView {
        link_view(*self)
    }
}

/// The views of a sequence are the views of its elements.
pub proof fn lemma_data_views(s: Seq<DataSelector>)
    ensures
        data_views(s).len() == s.len(),
        forall|i: int| 0 <= i < s.len() ==> #[trigger] data_views(s)[i] == s[i]@,
    decreases s.len(),
{
    if s.len() > 0 {
        let init = s.subrange(0, s.len() - 1);
        lemma_data_views(init);
        assert forall|i: int| 0 <= i < s.len() implies #[trigger] data_views(s)[i] == s[i]@ by {
            if i < s.len() - 1 {
                assert(init[i] == s[i]);
            }
        }
    }
}

/// The views of a sequence are the views of its elements.
pub proof fn lemma_link_views(s: Seq<LinkSelector>)
    ensures
        link_views(s).len() == s.len(),
        forall|i: int| 0 <= i < s.len() ==> #[trigger] link_views(s)[i] == s[i]@,
    decreases s.len(),
{
    if s.len() > 0 {
        let init = s.subrange(0, s.len() - 1);
        lemma_link_views(init);
        assert forall|i: int| 0 <= i < s.len() implies #[trigger] link_views(s)[i] == s[i]@ by {
            if i < s.len() - 1 {
                assert(init[i] == s[i]);
            }
        }
    }
}

/// The views of a sequence with one more selector.
pub proof fn lemma_data_views_push(s: Seq<DataSelector>, x: DataSelector)
    ensures
        data_views(s.push(x)) == data_views(s).push(x@),
{
    assert(s.push(x).subrange(0, s.len() as int) =~= s);
}

/// The views of a sequence with one more selector.
pub proof fn lemma_link_views_push(s: Seq<LinkSelector>, x: LinkSelector)
    ensures
        link_views(s.push(x)) == link_views(s).push(x@),
{
    assert(s.push(x).subrange(0, s.len() as int) =~= s);
}

/// Whether `s` holds of data that provides `values`.
pub open spec fn data_selects(s: DataSelectorView, values: Seq<ValueView>) -> bool
    decreases s,
{
    match s {
        DataSelectorView::Any => true,
        DataSelectorView::Nothing => false,
        DataSelectorView::And(v) => forall|i: int|
            0 <= i < v.len() ==> data_selects(#[trigger] v[i], values),
        DataSelectorView::Or(v) => exists|i: int|
            0 <= i < v.len() && data_selects(#[trigger] v[i], values),
        DataSelectorView::Not(b) => !data_selects(*b, values),
        DataSelectorView::Text(t) => values.contains(ValueView::Str(t)),
        DataSelectorView::Unique => first_id(values) is Some,
        DataSelectorView::Id(id) => first_id(values) == Some(id),
        DataSelectorView::NotId(id) => first_id(values) != Some(id),
        DataSelectorView::Linked(_) => false,
    }
}

/// Whether asking `s` about data that provides `values` reaches a link selector, which
/// is not decided. `And` and `Or` ask their parts in order and stop at the first that
/// settles the answer.
pub open spec fn data_undecided(s: DataSelectorView, values: Seq<ValueView>) -> bool
    decreases s,
{
    match s {
        DataSelectorView::Linked(_) => true,
        DataSelectorView::And(v) => exists|i: int|
            0 <= i < v.len() && data_undecided(#[trigger] v[i], values) && forall|j: int|
                0 <= j < i ==> data_selects(#[trigger] v[j], values),
        DataSelectorView::Or(v) => exists|i: int|
            0 <= i < v.len() && data_undecided(#[trigger] v[i], values) && forall|j: int|
                0 <= j < i ==> !data_selects(#[trigger] v[j], values),
        DataSelectorView::Not(b) => data_undecided(*b, values),
        _ => false,
    }
}

/// The answer `s` gives whatever it is asked about, if it has one.
pub open spec fn data_as_bool(s: DataSelectorView) -> Option<bool> {
    match s {
        DataSelectorView::Any => Some(true),
        DataSelectorView::Nothing => Some(false),
        _ => None,
    }
}

/// What `s.and(t)` builds.
pub open spec fn data_and(s: DataSelectorView, t: DataSelectorView) -> DataSelectorView {
    match s {
        DataSelectorView::And(v) => DataSelectorView::And(v.push(t)),
        _ => DataSelectorView::And(seq![s, t]),
    }
}

/// What `s.or(t)` builds.
pub open spec fn data_or(s: DataSelectorView, t: DataSelectorView) -> DataSelectorView {
    match s {
        DataSelectorView::Or(v) => DataSelectorView::Or(v.push(t)),
        _ => DataSelectorView::Or(seq![s, t]),
    }
}

/// Looks for one text among the values it is given.
struct TextMatcher<'a> {
    search: &'a str,
    found: bool,
}

impl<'a> DeepView for TextMatcher<'a> {
    type V = (Seq<char>, bool);

    closed spec fn deep_view(&self) -> (Seq<char>, bool) {
        (self.search@, self.found)
    }
}

impl<'a> Visitor for TextMatcher<'a> {
    /// Once the text is seen, it stays found.
    closed spec fn spec_visit(state: (Seq<char>, bool), value: ValueView) -> (Seq<char>, bool) {
        (state.0, state.1 || value == ValueView::Str(state.0))
    }

    fn visit(&mut self, value: Value) {
        match value {
            Value::Str(s) => {
                if str_eq(s.as_str(), self.search) {
                    self.found = true;
                }
            },
            _ => {},
        }
    }
}

/// A text matcher finds the text when the values hold it.
proof fn lemma_matcher_finds(search: Seq<char>, values: Seq<ValueView>)
    ensures
        visit_all::<TextMatcher>((search, false), values) == (
            search,
            values.contains(ValueView::Str(search)),
        ),
    decreases values.len(),
{
    if values.len() > 0 {
        let init = values.drop_last();
        lemma_matcher_finds(search, init);
        if values.contains(ValueView::Str(search)) && !init.contains(ValueView::Str(search)) {
            let k = choose|k: int| 0 <= k < values.len() && values[k] == ValueView::Str(search);
            if k < values.len() - 1 {
                assert(init[k] == values[k]);
            }
        }
        if init.contains(ValueView::Str(search)) {
            let k = choose|k: int| 0 <= k < init.len() && init[k] == ValueView::Str(search);
            assert(values[k] == init[k]);
        }
    }
}

/// The parts of a conjunction or disjunction are smaller than it.
proof fn lemma_data_parts_smaller(vs: Seq<DataSelectorView>, i: int)
    requires
        0 <= i < vs.len(),
    ensures
        decreases_to!(DataSelectorView::And(vs) => DataSelectorView::And(vs)->And_0),
        decreases_to!(DataSelectorView::Or(vs) => DataSelectorView::Or(vs)->Or_0),
        decreases_to!(vs => vs[i]),
{
    let a = DataSelectorView::And(vs);
    let o = DataSelectorView::Or(vs);
    assert(decreases_to!(a => a->And_0));
    assert(decreases_to!(o => o->Or_0));
    assert(decreases_to!(vs => vs[i]));
}

/// The parts of a conjunction or disjunction are smaller than it.
proof fn lemma_link_parts_smaller(vs: Seq<LinkSelectorView>, i: int)
    requires
        0 <= i < vs.len(),
    ensures
        decreases_to!(LinkSelectorView::And(vs) => LinkSelectorView::And(vs)->And_0),
        decreases_to!(LinkSelectorView::Or(vs) => LinkSelectorView::Or(vs)->Or_0),
        decreases_to!(vs => vs[i]),
{
    let a = LinkSelectorView::And(vs);
    let o = LinkSelectorView::Or(vs);
    assert(decreases_to!(a => a->And_0));
    assert(decreases_to!(o => o->Or_0));
    assert(decreases_to!(vs => vs[i]));
}

/// Decides `s` about `d`.
fn select_data<D: Data + ?Sized>(s: &DataSelector, d: &D) -> (r: bool)
    requires
        !data_undecided(s@, d.spec_values()),
    ensures
        r == data_selects(s@, d.spec_values()),
    decreases *s,
{
    let ghost vals = d.spec_values();
    match s {
        DataSelector::Any => true,
        DataSelector::Nothing => false,
        DataSelector::And(v) => {
            let ghost vs = data_views(v@);
            proof {
                lemma_data_views(v@);
            }
            let mut i: usize = 0;
            while i < v.len()
                invariant
                    0 <= i <= v@.len(),
                    *s == DataSelector::And(*v),
                    vals == d.spec_values(),
                    vs.len() == v@.len(),
                    vs == data_views(v@),
                    forall|j: int| 0 <= j < v@.len() ==> #[trigger] vs[j] == v@[j]@,
                    !data_undecided(DataSelectorView::And(vs), vals),
                    forall|j: int| 0 <= j < i ==> data_selects(#[trigger] vs[j], vals),
                decreases v@.len() - i,
            {
                assert(vs[i as int] == v@[i as int]@);
                assert(!data_undecided(vs[i as int], vals)) by {
                    if data_undecided(vs[i as int], vals) {
                        assert(forall|j: int| 0 <= j < i ==> data_selects(#[trigger] vs[j], vals));
                        lemma_data_parts_smaller(vs, i as int);
                        assert(data_undecided(DataSelectorView::And(vs), vals));
                    }
                }
                assert(decreases_to!(*s => (*s)->And_0));
                assert(decreases_to!(*v => v[i as int]));
                if !select_data(&v[i], d) {
                    proof {
                        lemma_data_parts_smaller(vs, i as int);
                    }
                    return false;
                }
                i = i + 1;
            }
            true
        },
        DataSelector::Or(v) => {
            let ghost vs = data_views(v@);
            proof {
                lemma_data_views(v@);
            }
            let mut i: usize = 0;
            while i < v.len()
                invariant
                    0 <= i <= v@.len(),
                    *s == DataSelector::Or(*v),
                    vals == d.spec_values(),
                    vs.len() == v@.len(),
                    vs == data_views(v@),
                    forall|j: int| 0 <= j < v@.len() ==> #[trigger] vs[j] == v@[j]@,
                    !data_undecided(DataSelectorView::Or(vs), vals),
                    forall|j: int| 0 <= j < i ==> !data_selects(#[trigger] vs[j], vals),
                decreases v@.len() - i,
            {
                assert(vs[i as int] == v@[i as int]@);
                assert(!data_undecided(vs[i as int], vals)) by {
                    if data_undecided(vs[i as int], vals) {
                        assert(forall|j: int| 0 <= j < i ==> !data_selects(#[trigger] vs[j], vals));
                        lemma_data_parts_smaller(vs, i as int);
                        assert(data_undecided(DataSelectorView::Or(vs), vals));
                    }
                }
                assert(decreases_to!(*s => (*s)->Or_0));
                assert(decreases_to!(*v => v[i as int]));
                if select_data(&v[i], d) {
                    proof {
                        lemma_data_parts_smaller(vs, i as int);
                    }
                    return true;
                }
                i = i + 1;
            }
            false
        },
        DataSelector::Not(b) => !select_data(&**b, d),
        DataSelector::Text(t) => {
            let mut m = TextMatcher { search: t.search.as_str(), found: false };
            d.query(&mut m);
            proof {
                lemma_matcher_finds(t.search@, d.spec_values());
            }
            m.found
        },
        DataSelector::Unique => d.get_id().is_some(),
        DataSelector::Id(id) => match d.get_id() {
            Some(i) => i == *id,
            None => false,
        },
        DataSelector::NotId(id) => match d.get_id() {
            Some(i) => i != *id,
            None => true,
        },
        DataSelector::Linked(_) => {
            assert(false);
            false
        },
    }
}

impl DataSelector {
    /// Holds of everything.
    pub fn any() -> (r: Self)
        ensures
            r == DataSelector::Any,
    {
        DataSelector::Any
    }

    /// Holds of nothing.
    pub fn none() -> (r: Self)
        ensures
            r == DataSelector::Nothing,
    {
        DataSelector::Nothing
    }

    /// Holds of data that provides the text.
    pub fn text(s: TextSelector) -> (r: Self)
        ensures
            r@ == DataSelectorView::Text(s.search@),
    {
        DataSelector::Text(s)
    }

    /// Holds of data that provides an identifier.
    pub fn unique() -> (r: Self)
        ensures
            r == DataSelector::Unique,
    {
        DataSelector::Unique
    }

    /// Holds of data whose identifier is `id`.
    pub fn id(id: ID) -> (r: Self)
        ensures
            r == DataSelector::Id(id),
    {
        DataSelector::Id(id)
    }

    /// Holds of data whose identifier is not `id`.
    pub fn not_id(id: ID) -> (r: Self)
        ensures
            r == DataSelector::NotId(id),
    {
        DataSelector::NotId(id)
    }

    /// A condition on the links of the data.
    pub fn linked(selector: LinkSelector) -> (r: Self)
        ensures
            r@ == DataSelectorView::Linked(Box::new(selector@)),
    {
        DataSelector::Linked(Box::new(selector))
    }

    /// Holds of data with the identifier of `data`.
    pub fn eq<U: Unique>(data: &U) -> (r: Self)
        ensures
            r == DataSelector::Id(data.spec_id()),
    {
        DataSelector::Id(data.id())
    }

    /// Holds of data without the identifier of `data`.
    pub fn ne<U: Unique>(data: &U) -> (r: Self)
        ensures
            r == DataSelector::NotId(data.spec_id()),
    {
        DataSelector::NotId(data.id())
    }

    /// Holds when both `self` and `s` hold; extends `self` when it is already a conjunction.
    pub fn and(self, s: DataSelector) -> (r: Self)
        ensures
            r@ == data_and(self@, s@),
            forall|values: Seq<ValueView>| #[trigger] data_selects(r@, values)
                == (data_selects(self@, values) && data_selects(s@, values)),
            forall|values: Seq<ValueView>| !data_undecided(self@, values) && !data_undecided(s@, values)
                ==> !#[trigger] data_undecided(r@, values),
    {
        let ghost (va, vb) = (self@, s@);
        let r = match self {
            DataSelector::And(mut v) => {
                let ghost before = v@;
                v.push(s);
                proof {
                    lemma_data_views_push(before, s);
                    assert(self@ == DataSelectorView::And(data_views(before)));
                    assert(DataSelector::And(v)@ == DataSelectorView::And(data_views(v@)));
                    assert(v@ == before.push(s));
                }
                DataSelector::And(v)
            },
            other => {
                let r = vec![other, s];
                proof {
                    lemma_data_views_push(Seq::<DataSelector>::empty(), other);
                    lemma_data_views_push(seq![other], s);
                    assert(Seq::<DataSelector>::empty().push(other) =~= seq![other]);
                    assert(seq![other].push(s) =~= r@);
                    assert(!(self@ is And));
                    lemma_data_views(r@);
                    assert(data_views(r@) =~= seq![other@, s@]);
                    assert(DataSelector::And(r)@ == DataSelectorView::And(seq![other@, s@]));
                }
                DataSelector::And(r)
            },
        };
        proof {
            assert forall|values: Seq<ValueView>| #[trigger] data_selects(r@, values)
                == (data_selects(va, values) && data_selects(vb, values)) by {
                lemma_data_and_selects(va, vb, values);
            }
            assert forall|values: Seq<ValueView>| !data_undecided(va, values) && !data_undecided(vb, values)
                implies !#[trigger] data_undecided(r@, values) by {
                lemma_data_and_decided(va, vb, values);
            }
        }
        r
    }

    /// Holds when `self` or `s` holds; extends `self` when it is already a disjunction.
    pub fn or(self, s: DataSelector) -> (r: Self)
        ensures
            r@ == data_or(self@, s@),
            forall|values: Seq<ValueView>| #[trigger] data_selects(r@, values)
                == (data_selects(self@, values) || data_selects(s@, values)),
            forall|values: Seq<ValueView>| !data_undecided(self@, values) && !data_undecided(s@, values)
                ==> !#[trigger] data_undecided(r@, values),
    {
        let ghost (va, vb) = (self@, s@);
        let r = match self {
            DataSelector::Or(mut v) => {
                let ghost before = v@;
                v.push(s);
                proof {
                    lemma_data_views_push(before, s);
                }
                DataSelector::Or(v)
            },
            other => {
                let r = vec![other, s];
                proof {
                    lemma_data_views_push(Seq::<DataSelector>::empty(), other);
                    lemma_data_views_push(seq![other], s);
                    assert(Seq::<DataSelector>::empty().push(other) =~= seq![other]);
                    assert(seq![other].push(s) =~= r@);
                    assert(!(self@ is Or));
                    lemma_data_views(r@);
                    assert(data_views(r@) =~= seq![other@, s@]);
                    assert(DataSelector::Or(r)@ == DataSelectorView::Or(seq![other@, s@]));
                }
                DataSelector::Or(r)
            },
        };
        proof {
            assert forall|values: Seq<ValueView>| #[trigger] data_selects(r@, values)
                == (data_selects(va, values) || data_selects(vb, values)) by {
                lemma_data_or_selects(va, vb, values);
            }
            assert forall|values: Seq<ValueView>| !data_undecided(va, values) && !data_undecided(vb, values)
                implies !#[trigger] data_undecided(r@, values) by {
                lemma_data_or_decided(va, vb, values);
            }
        }
        r
    }

    /// Holds when `self` does not.
    pub fn not(self) -> (r: Self)
        ensures
            r@ == DataSelectorView::Not(Box::new(self@)),
    {
        DataSelector::Not(Box::new(self))
    }
}

impl Default for DataSelector {
    fn default() -> (r: Self)
        ensures
            r == DataSelector::Any,
    {
        DataSelector::Any
    }
}

/// The values of the key of `l`, if it has one.
pub open spec fn key_values<L: Link>(l: L) -> Option<Seq<ValueView>> {
    match l.spec_key() {
        Some(k) => Some(k.spec_values()),
        None => None,
    }
}

/// Whether `s` holds of a link whose key provides `key` (if it has a key) and whose
/// target provides `target`.
pub open spec fn link_selects(s: LinkSelectorView, key: Option<Seq<ValueView>>, target: Seq<ValueView>) -> bool
    decreases s,
{
    match s {
        LinkSelectorView::Any => true,
        LinkSelectorView::Nothing => false,
        LinkSelectorView::And(v) => forall|i: int|
            0 <= i < v.len() ==> link_selects(#[trigger] v[i], key, target),
        LinkSelectorView::Or(v) => exists|i: int|
            0 <= i < v.len() && link_selects(#[trigger] v[i], key, target),
        LinkSelectorView::Not(b) => !link_selects(*b, key, target),
        LinkSelectorView::Key(d) => match key {
            Some(k) => data_selects(d, k),
            None => false,
        },
        LinkSelectorView::Target(d) => data_selects(d, target),
    }
}

/// Whether asking `s` about such a link reaches a condition that is not decided.
pub open spec fn link_undecided(s: LinkSelectorView, key: Option<Seq<ValueView>>, target: Seq<ValueView>) -> bool
    decreases s,
{
    match s {
        LinkSelectorView::And(v) => exists|i: int|
            0 <= i < v.len() && link_undecided(#[trigger] v[i], key, target) && forall|j: int|
                0 <= j < i ==> link_selects(#[trigger] v[j], key, target),
        LinkSelectorView::Or(v) => exists|i: int|
            0 <= i < v.len() && link_undecided(#[trigger] v[i], key, target) && forall|j: int|
                0 <= j < i ==> !link_selects(#[trigger] v[j], key, target),
        LinkSelectorView::Not(b) => link_undecided(*b, key, target),
        LinkSelectorView::Key(d) => match key {
            Some(k) => data_undecided(d, k),
            None => false,
        },
        LinkSelectorView::Target(d) => data_undecided(d, target),
        _ => false,
    }
}

/// The answer `s` gives whatever it is asked about, if it has one.
pub open spec fn link_as_bool(s: LinkSelectorView) -> Option<bool> {
    match s {
        LinkSelectorView::Any => Some(true),
        LinkSelectorView::Nothing => Some(false),
        _ => None,
    }
}

/// What `s.and(t)` builds.
pub open spec fn link_and(s: LinkSelectorView, t: LinkSelectorView) -> LinkSelectorView {
    match s {
        LinkSelectorView::And(v) => LinkSelectorView::And(v.push(t)),
        _ => LinkSelectorView::And(seq![s, t]),
    }
}

/// What `s.or(t)` builds.
pub open spec fn link_or(s: LinkSelectorView, t: LinkSelectorView) -> LinkSelectorView {
    match s {
        LinkSelectorView::Or(v) => LinkSelectorView::Or(v.push(t)),
        _ => LinkSelectorView::Or(seq![s, t]),
    }
}

/// Decides `s` about the link `l`.
fn select_link<L: Link>(s: &LinkSelector, l: &L) -> (r: bool)
    requires
        !link_undecided(s@, key_values(*l), l.spec_target().spec_values()),
    ensures
        r == link_selects(s@, key_values(*l), l.spec_target().spec_values()),
    decreases *s,
{
    let ghost kv = key_values(*l);
    let ghost tv = l.spec_target().spec_values();
    match s {
        LinkSelector::Any => true,
        LinkSelector::Nothing => false,
        LinkSelector::And(v) => {
            let ghost vs = link_views(v@);
            proof {
                lemma_link_views(v@);
            }
            let mut i: usize = 0;
            while i < v.len()
                invariant
                    0 <= i <= v@.len(),
                    *s == LinkSelector::And(*v),
                    kv == key_values(*l),
                    tv == l.spec_target().spec_values(),
                    vs.len() == v@.len(),
                    vs == link_views(v@),
                    forall|j: int| 0 <= j < v@.len() ==> #[trigger] vs[j] == v@[j]@,
                    !link_undecided(LinkSelectorView::And(vs), kv, tv),
                    forall|j: int| 0 <= j < i ==> link_selects(#[trigger] vs[j], kv, tv),
                decreases v@.len() - i,
            {
                assert(vs[i as int] == v@[i as int]@);
                assert(!link_undecided(vs[i as int], kv, tv)) by {
                    if link_undecided(vs[i as int], kv, tv) {
                        assert(forall|j: int| 0 <= j < i ==> link_selects(#[trigger] vs[j], kv, tv));
                        assert(0 <= i < vs.len() && link_undecided(vs[i as int], kv, tv) && forall|j: int| 0 <= j < i ==> link_selects(#[trigger] vs[j], kv, tv));
                        lemma_link_parts_smaller(vs, i as int);
                        assert(link_undecided(LinkSelectorView::And(vs), kv, tv));
                    }
                }
                assert(decreases_to!(*s => (*s)->And_0));
                assert(decreases_to!(*v => v[i as int]));
                if !select_link(&v[i], l) {
                    proof {
                        lemma_link_parts_smaller(vs, i as int);
                    }
                    return false;
                }
                i = i + 1;
            }
            true
        },
        LinkSelector::Or(v) => {
            let ghost vs = link_views(v@);
            proof {
                lemma_link_views(v@);
            }
            let mut i: usize = 0;
            while i < v.len()
                invariant
                    0 <= i <= v@.len(),
                    *s == LinkSelector::Or(*v),
                    kv == key_values(*l),
                    tv == l.spec_target().spec_values(),
                    vs.len() == v@.len(),
                    vs == link_views(v@),
                    forall|j: int| 0 <= j < v@.len() ==> #[trigger] vs[j] == v@[j]@,
                    !link_undecided(LinkSelectorView::Or(vs), kv, tv),
                    forall|j: int| 0 <= j < i ==> !link_selects(#[trigger] vs[j], kv, tv),
                decreases v@.len() - i,
            {
                assert(vs[i as int] == v@[i as int]@);
                assert(!link_undecided(vs[i as int], kv, tv)) by {
                    if link_undecided(vs[i as int], kv, tv) {
                        assert(forall|j: int| 0 <= j < i ==> !link_selects(#[trigger] vs[j], kv, tv));
                        assert(0 <= i < vs.len() && link_undecided(vs[i as int], kv, tv) && forall|j: int| 0 <= j < i ==> !link_selects(#[trigger] vs[j], kv, tv));
                        lemma_link_parts_smaller(vs, i as int);
                        assert(link_undecided(LinkSelectorView::Or(vs), kv, tv));
                    }
                }
                assert(decreases_to!(*s => (*s)->Or_0));
                assert(decreases_to!(*v => v[i as int]));
                if select_link(&v[i], l) {
                    proof {
                        lemma_link_parts_smaller(vs, i as int);
                    }
                    return true;
                }
                i = i + 1;
            }
            false
        },
        LinkSelector::Not(b) => !select_link(&**b, l),
        LinkSelector::Key(d) => match l.key() {
            Some(k) => select_data(d, k),
            None => false,
        },
        LinkSelector::Target(d) => select_data(d, l.target()),
    }
}

impl LinkSelector {
    /// Holds of every link.
    pub fn any() -> (r: Self)
        ensures
            r == LinkSelector::Any,
    {
        LinkSelector::Any
    }

    /// Holds of no link.
    pub fn none() -> (r: Self)
        ensures
            r == LinkSelector::Nothing,
    {
        LinkSelector::Nothing
    }

    /// Holds of links with a key that `s` selects.
    pub fn key(s: DataSelector) -> (r: Self)
        ensures
            r@ == LinkSelectorView::Key(s@),
    {
        LinkSelector::Key(s)
    }

    /// Holds of links whose target `s` selects.
    pub fn target(s: DataSelector) -> (r: Self)
        ensures
            r@ == LinkSelectorView::Target(s@),
    {
        LinkSelector::Target(s)
    }

    /// Holds when both `self` and `s` hold; extends `self` when it is already a conjunction.
    pub fn and(self, s: LinkSelector) -> (r: Self)
        ensures
            r@ == link_and(self@, s@),
            forall|key: Option<Seq<ValueView>>, target: Seq<ValueView>| #[trigger] link_selects(r@, key, target)
                == (link_selects(self@, key, target) && link_selects(s@, key, target)),
            forall|key: Option<Seq<ValueView>>, target: Seq<ValueView>|
                !link_undecided(self@, key, target) && !link_undecided(s@, key, target)
                ==> !#[trigger] link_undecided(r@, key, target),
    {
        let ghost (va, vb) = (self@, s@);
        let r = match self {
            LinkSelector::And(mut v) => {
                let ghost before = v@;
                v.push(s);
                proof {
                    lemma_link_views_push(before, s);
                }
                LinkSelector::And(v)
            },
            other => {
                let r = vec![other, s];
                proof {
                    lemma_link_views_push(Seq::<LinkSelector>::empty(), other);
                    lemma_link_views_push(seq![other], s);
                    assert(Seq::<LinkSelector>::empty().push(other) =~= seq![other]);
                    assert(seq![other].push(s) =~= r@);
                    assert(!(self@ is And));
                    lemma_link_views(r@);
                    assert(link_views(r@) =~= seq![other@, s@]);
                    assert(LinkSelector::And(r)@ == LinkSelectorView::And(seq![other@, s@]));
                }
                LinkSelector::And(r)
            },
        };
        proof {
            assert forall|key: Option<Seq<ValueView>>, target: Seq<ValueView>| #[trigger] link_selects(r@, key, target)
                == (link_selects(va, key, target) && link_selects(vb, key, target)) by {
                lemma_link_and_selects(va, vb, key, target);
            }
            assert forall|key: Option<Seq<ValueView>>, target: Seq<ValueView>|
                !link_undecided(va, key, target) && !link_undecided(vb, key, target)
                implies !#[trigger] link_undecided(r@, key, target) by {
                lemma_link_and_decided(va, vb, key, target);
            }
        }
        r
    }

    /// Holds when `self` or `s` holds; extends `self` when it is already a disjunction.
    pub fn or(self, s: LinkSelector) -> (r: Self)
        ensures
            r@ == link_or(self@, s@),
            forall|key: Option<Seq<ValueView>>, target: Seq<ValueView>| #[trigger] link_selects(r@, key, target)
                == (link_selects(self@, key, target) || link_selects(s@, key, target)),
            forall|key: Option<Seq<ValueView>>, target: Seq<ValueView>|
                !link_undecided(self@, key, target) && !link_undecided(s@, key, target)
                ==> !#[trigger] link_undecided(r@, key, target),
    {
        let ghost (va, vb) = (self@, s@);
        let r = match self {
            LinkSelector::Or(mut v) => {
                let ghost before = v@;
                v.push(s);
                proof {
                    lemma_link_views_push(before, s);
                }
                LinkSelector::Or(v)
            },
            other => {
                let r = vec![other, s];
                proof {
                    lemma_link_views_push(Seq::<LinkSelector>::empty(), other);
                    lemma_link_views_push(seq![other], s);
                    assert(Seq::<LinkSelector>::empty().push(other) =~= seq![other]);
                    assert(seq![other].push(s) =~= r@);
                    assert(!(self@ is Or));
                    lemma_link_views(r@);
                    assert(link_views(r@) =~= seq![other@, s@]);
                    assert(LinkSelector::Or(r)@ == LinkSelectorView::Or(seq![other@, s@]));
                }
                LinkSelector::Or(r)
            },
        };
        proof {
            assert forall|key: Option<Seq<ValueView>>, target: Seq<ValueView>| #[trigger] link_selects(r@, key, target)
                == (link_selects(va, key, target) || link_selects(vb, key, target)) by {
                lemma_link_or_selects(va, vb, key, target);
            }
            assert forall|key: Option<Seq<ValueView>>, target: Seq<ValueView>|
                !link_undecided(va, key, target) && !link_undecided(vb, key, target)
                implies !#[trigger] link_undecided(r@, key, target) by {
                lemma_link_or_decided(va, vb, key, target);
            }
        }
        r
    }

    /// Holds when `self` does not.
    pub fn not(self) -> (r: Self)
        ensures
            r@ == LinkSelectorView::Not(Box::new(self@)),
    {
        LinkSelector::Not(Box::new(self))
    }
}

impl Default for LinkSelector {
    fn default() -> (r: Self)
        ensures
            r == LinkSelector::Any,
    {
        LinkSelector::Any
    }
}

/// The positions, in ascending order, at which `flags` holds `Some(b)`.
pub open spec fn positions_of(flags: Seq<Option<bool>>, b: bool) -> Seq<int>
    decreases flags.len(),
{
    if flags.len() == 0 {
        Seq::empty()
    } else {
        let init = positions_of(flags.drop_last(), b);
        if flags.last() == Some(b) {
            init.push(flags.len() - 1)
        } else {
            init
        }
    }
}

/// `s` after `Vec::swap_remove` at `i`: the last element takes the place of the `i`-th.
pub open spec fn swap_removed<T>(s: Seq<T>, i: int) -> Seq<T> {
    s.update(i, s.last()).drop_last()
}

/// `s` after swap-removing at each position of `idx`, in turn.
pub open spec fn swap_removed_all<T>(s: Seq<T>, idx: Seq<int>) -> Seq<T>
    decreases idx.len(),
{
    if idx.len() == 0 {
        s
    } else {
        swap_removed_all(swap_removed(s, idx[0]), idx.drop_first())
    }
}

/// Whether swap-removing at each position of `idx`, in turn, from a sequence of length
/// `n` always stays within the sequence.
pub open spec fn removals_in_bounds(n: int, idx: Seq<int>) -> bool {
    forall|k: int| 0 <= k < idx.len() ==> #[trigger] idx[k] < n - k
}

/// The positions of `positions_of` are increasing, in range, and exactly those with
/// the flag.
pub proof fn lemma_positions_of(flags: Seq<Option<bool>>, b: bool)
    ensures
        forall|k: int, l: int|
            0 <= k < l < positions_of(flags, b).len() ==> positions_of(flags, b)[k] < positions_of(flags, b)[l],
        forall|k: int|
            0 <= k < positions_of(flags, b).len() ==> 0 <= #[trigger] positions_of(flags, b)[k] < flags.len(),
        forall|j: int|
            0 <= j < flags.len() ==> (positions_of(flags, b).contains(j) <==> flags[j] == Some(b)),
        positions_of(flags, b).len() <= flags.len(),
        positions_of(flags, b).len() == flags.len() <==> forall|j: int|
            0 <= j < flags.len() ==> #[trigger] flags[j] == Some(b),
    decreases flags.len(),
{
    if flags.len() > 0 {
        let init = flags.drop_last();
        lemma_positions_of(init, b);
        let p = positions_of(init, b);
        assert forall|j: int| 0 <= j < flags.len() implies (positions_of(flags, b).contains(j) <==> flags[j] == Some(b)) by {
            if j < flags.len() - 1 {
                assert(init[j] == flags[j]);
                if flags.last() == Some(b) {
                    let q = p.push(flags.len() - 1);
                    if q.contains(j) {
                        let k = choose|k: int| 0 <= k < q.len() && q[k] == j;
                        if k < p.len() {
                            assert(p[k] == j);
                        }
                    }
                    if p.contains(j) {
                        let k = choose|k: int| 0 <= k < p.len() && p[k] == j;
                        assert(p.push(flags.len() - 1)[k] == j);
                    }
                }
            } else {
                if flags.last() == Some(b) {
                    assert(p.push(flags.len() - 1)[p.len() as int] == j);
                } else {
                    if p.contains(j) {
                        let k = choose|k: int| 0 <= k < p.len() && p[k] == j;
                    }
                }
            }
        }
        if forall|j: int| 0 <= j < flags.len() ==> #[trigger] flags[j] == Some(b) {
            assert forall|j: int| 0 <= j < init.len() implies #[trigger] init[j] == Some(b) by {
                assert(flags[j] == Some(b));
            }
            assert(flags[flags.len() - 1] == Some(b));
        }
        if positions_of(flags, b).len() == flags.len() {
            assert forall|j: int| 0 <= j < flags.len() implies #[trigger] flags[j] == Some(b) by {
                if flags.last() != Some(b) {
                    assert(false);
                }
                if j < flags.len() - 1 {
                    assert(init[j] == flags[j]);
                }
            }
        }
    }
}

/// The first position at which `flags` holds `Some(b)`.
pub proof fn lemma_first_flag(flags: Seq<Option<bool>>, b: bool) -> (k: int)
    requires
        flags.contains(Some(b)),
    ensures
        0 <= k < flags.len(),
        flags[k] == Some(b),
        forall|j: int| 0 <= j < k ==> #[trigger] flags[j] != Some(b),
    decreases flags.len(),
{
    let init = flags.drop_last();
    if init.contains(Some(b)) {
        let k = lemma_first_flag(init, b);
        assert forall|j: int| 0 <= j < k implies #[trigger] flags[j] != Some(b) by {
            assert(init[j] == flags[j]);
        }
        k
    } else {
        let w = choose|w: int| 0 <= w < flags.len() && flags[w] == Some(b);
        if w < flags.len() - 1 {
            assert(init[w] == flags[w]);
        }
        assert forall|j: int| 0 <= j < flags.len() - 1 implies #[trigger] flags[j] != Some(b) by {
            assert(init[j] == flags[j]);
        }
        flags.len() - 1
    }
}

/// Swap-removal keeps only elements of the sequence it starts from.
pub proof fn lemma_swap_removed_all_within<T>(s: Seq<T>, idx: Seq<int>)
    requires
        removals_in_bounds(s.len() as int, idx),
        forall|k: int| 0 <= k < idx.len() ==> 0 <= #[trigger] idx[k],
    ensures
        swap_removed_all(s, idx).len() == s.len() - idx.len(),
        forall|x: T| swap_removed_all(s, idx).contains(x) ==> s.contains(x),
    decreases idx.len(),
{
    if idx.len() > 0 {
        assert(idx[0] < s.len());
        let s2 = swap_removed(s, idx[0]);
        let rest = idx.drop_first();
        assert forall|k: int| 0 <= k < rest.len() implies #[trigger] rest[k] < s2.len() - k by {
            assert(rest[k] == idx[k + 1]);
        }
        assert forall|k: int| 0 <= k < rest.len() implies 0 <= #[trigger] rest[k] by {
            assert(rest[k] == idx[k + 1]);
        }
        lemma_swap_removed_all_within(s2, rest);
        assert forall|x: T| s2.contains(x) implies s.contains(x) by {
            let k = choose|k: int| 0 <= k < s2.len() && s2[k] == x;
            if k == idx[0] {
                assert(s[s.len() - 1] == x);
            } else {
                assert(s[k] == x);
            }
        }
    }
}

/// Swap-removal at increasing positions keeps every element at a position it does not
/// remove.
pub proof fn lemma_swap_removed_all_keeps<T>(s: Seq<T>, idx: Seq<int>, j: int)
    requires
        removals_in_bounds(s.len() as int, idx),
        forall|k: int| 0 <= k < idx.len() ==> 0 <= #[trigger] idx[k],
        forall|k: int, l: int| 0 <= k < l < idx.len() ==> idx[k] < idx[l],
        0 <= j < s.len(),
        !idx.contains(j),
    ensures
        swap_removed_all(s, idx).contains(s[j]),
    decreases idx.len(),
{
    if idx.len() == 0 {
        assert(s[j] == swap_removed_all(s, idx)[j]);
    } else {
        let a = idx[0];
        assert(a < s.len());
        assert(a != j) by {
            assert(idx[0] == a);
        }
        let s2 = swap_removed(s, a);
        let rest = idx.drop_first();
        assert forall|k: int| 0 <= k < rest.len() implies #[trigger] rest[k] < s2.len() - k by {
            assert(rest[k] == idx[k + 1]);
        }
        assert forall|k: int| 0 <= k < rest.len() implies 0 <= #[trigger] rest[k] by {
            assert(rest[k] == idx[k + 1]);
        }
        assert forall|k: int, l: int| 0 <= k < l < rest.len() implies rest[k] < rest[l] by {
            assert(rest[k] == idx[k + 1]);
            assert(rest[l] == idx[l + 1]);
        }
        if j == s.len() - 1 {
            assert(s2[a] == s[j]);
            assert(!rest.contains(a)) by {
                if rest.contains(a) {
                    let k = choose|k: int| 0 <= k < rest.len() && rest[k] == a;
                    assert(idx[k + 1] == a);
                    assert(idx[0] < idx[k + 1]);
                }
            }
            lemma_swap_removed_all_keeps(s2, rest, a);
        } else {
            assert(s2[j] == s[j]);
            assert(!rest.contains(j)) by {
                if rest.contains(j) {
                    let k = choose|k: int| 0 <= k < rest.len() && rest[k] == j;
                    assert(idx[k + 1] == j);
                    assert(idx.contains(j));
                }
            }
            lemma_swap_removed_all_keeps(s2, rest, j);
        }
    }
}

/// The answers that the selectors of `v` give whatever they are asked about.
pub open spec fn data_flags(v: Seq<DataSelectorView>) -> Seq<Option<bool>> {
    Seq::new(v.len(), |k: int| data_as_bool(v[k]))
}

/// `s` after `optimize`: a conjunction or disjunction simplifies its parts, in order,
/// and then collapses to `Any` or `Nothing` when a part decides it, or drops the parts
/// that do not matter (by `Vec::swap_remove`). A disjunction whose parts all select
/// nothing, or that has no parts, becomes `Any`. Other selectors stay as they are.
pub open spec fn data_opt(s: DataSelectorView) -> DataSelectorView
    decreases s,
{
    match s {
        DataSelectorView::And(v) => {
            let flags = data_flags(data_opts(v));
            if flags.contains(Some(false)) {
                DataSelectorView::Nothing
            } else if positions_of(flags, true).len() == v.len() {
                DataSelectorView::Any
            } else {
                DataSelectorView::And(swap_removed_all(data_opts(v), positions_of(flags, true)))
            }
        },
        DataSelectorView::Or(v) => {
            let flags = data_flags(data_opts(v));
            if flags.contains(Some(true)) {
                DataSelectorView::Any
            } else if positions_of(flags, false).len() == v.len() {
                DataSelectorView::Any
            } else {
                DataSelectorView::Or(swap_removed_all(data_opts(v), positions_of(flags, false)))
            }
        },
        _ => s,
    }
}

/// Each selector of `v` after `optimize`.
pub open spec fn data_opts(v: Seq<DataSelectorView>) -> Seq<DataSelectorView>
    decreases v,
{
    if v.len() == 0 {
        Seq::empty()
    } else {
        data_opts(v.subrange(0, v.len() - 1)).push(data_opt(v[v.len() - 1]))
    }
}

/// Whether `optimize` runs to its end on `s`: each removal of parts that do not matter
/// stays within the parts left. The parts after one that decides a conjunction or
/// disjunction are not simplified, so they do not count.
pub open spec fn data_optimizable(s: DataSelectorView) -> bool
    decreases s,
{
    match s {
        DataSelectorView::And(v) => {
            &&& forall|i: int|
                0 <= i < v.len() && (forall|j: int| 0 <= j < i ==> data_as_bool(data_opt(#[trigger] v[j])) != Some(false))
                    ==> data_optimizable(#[trigger] v[i])
            &&& (!data_flags(data_opts(v)).contains(Some(false)) && positions_of(data_flags(data_opts(v)), true).len() != v.len())
                ==> removals_in_bounds(v.len() as int, positions_of(data_flags(data_opts(v)), true))
        },
        DataSelectorView::Or(v) => {
            &&& forall|i: int|
                0 <= i < v.len() && (forall|j: int| 0 <= j < i ==> data_as_bool(data_opt(#[trigger] v[j])) != Some(true))
                    ==> data_optimizable(#[trigger] v[i])
            &&& (!data_flags(data_opts(v)).contains(Some(true)) && positions_of(data_flags(data_opts(v)), false).len() != v.len())
                ==> removals_in_bounds(v.len() as int, positions_of(data_flags(data_opts(v)), false))
        },
        _ => true,
    }
}

/// Whether `optimize` keeps the meaning of `s`: it does, except where a disjunction
/// whose simplified parts all select nothing (or that has no parts) becomes `Any`.
pub open spec fn data_opt_faithful(s: DataSelectorView) -> bool
    decreases s,
{
    match s {
        DataSelectorView::And(v) => forall|i: int|
            0 <= i < v.len() && (forall|j: int| 0 <= j < i ==> data_as_bool(data_opt(#[trigger] v[j])) != Some(false))
                ==> data_opt_faithful(#[trigger] v[i]),
        DataSelectorView::Or(v) => {
            &&& forall|i: int|
                0 <= i < v.len() && (forall|j: int| 0 <= j < i ==> data_as_bool(data_opt(#[trigger] v[j])) != Some(true))
                    ==> data_opt_faithful(#[trigger] v[i])
            &&& (data_flags(data_opts(v)).contains(Some(true)) || positions_of(data_flags(data_opts(v)), false).len() != v.len())
        },
        _ => true,
    }
}

/// The simplified parts are the parts simplified one by one.
pub proof fn lemma_data_opts(v: Seq<DataSelectorView>)
    ensures
        data_opts(v).len() == v.len(),
        forall|i: int| 0 <= i < v.len() ==> #[trigger] data_opts(v)[i] == data_opt(v[i]),
    decreases v.len(),
{
    if v.len() > 0 {
        let init = v.subrange(0, v.len() - 1);
        lemma_data_opts(init);
        assert forall|i: int| 0 <= i < v.len() implies #[trigger] data_opts(v)[i] == data_opt(v[i]) by {
            if i < v.len() - 1 {
                assert(init[i] == v[i]);
            }
        }
    }
}

/// The views of a sequence commute with swap-removal.
proof fn lemma_data_views_swap_removed(s: Seq<DataSelector>, i: int)
    requires
        0 <= i < s.len(),
    ensures
        data_views(swap_removed(s, i)) == swap_removed(data_views(s), i),
{
    lemma_data_views(s);
    lemma_data_views(swap_removed(s, i));
    assert(data_views(swap_removed(s, i)) =~= swap_removed(data_views(s), i));
}

/// The answer a data selector gives whatever it is asked about, if it has one.
fn data_as_bool_of(s: &DataSelector) -> (r: Option<bool>)
    ensures
        r == data_as_bool(s@),
{
    match s {
        DataSelector::Any => Some(true),
        DataSelector::Nothing => Some(false),
        _ => None,
    }
}

/// Simplifies `s`.
fn optimize_data(s: &mut DataSelector)
    requires
        data_optimizable(old(s)@),
    ensures
        final(s)@ == data_opt(old(s)@),
    decreases *old(s),
{
    let mut taken = DataSelector::Any;
    core::mem::swap(&mut taken, s);
    match taken {
        DataSelector::And(mut v) => {
            proof {
                assert(decreases_to!(*old(s) => (*old(s))->And_0));
                assert(decreases_to!(v => v@));
            }
            let ghost v0 = v@;
            proof {
                assert(old(s)@ == DataSelectorView::And(data_views(v0)));
            }
            let r = optimize_data_and(&mut v);
            proof {
                let ghost flags = data_flags(data_opts(data_views(v0)));
                assert(data_opt(old(s)@) == (if flags.contains(Some(false)) {
                    DataSelectorView::Nothing
                } else if positions_of(flags, true).len() == data_views(v0).len() {
                    DataSelectorView::Any
                } else {
                    DataSelectorView::And(swap_removed_all(data_opts(data_views(v0)), positions_of(flags, true)))
                }));
                lemma_data_views(v0);
            }
            match r {
                Some(true) => {
                    *s = DataSelector::Any;
                },
                Some(false) => {
                    *s = DataSelector::Nothing;
                },
                None => {
                    *s = DataSelector::And(v);
                    assert(s@ == DataSelectorView::And(data_views(v@)));
                },
            }
        },
        DataSelector::Or(mut v) => {
            proof {
                assert(decreases_to!(*old(s) => (*old(s))->Or_0));
                assert(decreases_to!(v => v@));
            }
            let ghost v0 = v@;
            proof {
                assert(old(s)@ == DataSelectorView::Or(data_views(v0)));
            }
            let r = optimize_data_or(&mut v);
            proof {
                let ghost flags = data_flags(data_opts(data_views(v0)));
                assert(data_opt(old(s)@) == (if flags.contains(Some(true)) {
                    DataSelectorView::Any
                } else if positions_of(flags, false).len() == data_views(v0).len() {
                    DataSelectorView::Any
                } else {
                    DataSelectorView::Or(swap_removed_all(data_opts(data_views(v0)), positions_of(flags, false)))
                }));
                lemma_data_views(v0);
            }
            match r {
                Some(true) => {
                    *s = DataSelector::Any;
                },
                Some(false) => {
                    *s = DataSelector::Nothing;
                },
                None => {
                    *s = DataSelector::Or(v);
                },
            }
        },
        other => {
            proof {
                assert(!(other@ is And) && !(other@ is Or));
                assert(data_opt(other@) == other@);
            }
            *s = other;
        },
    }
}

/// Simplifies the parts of a conjunction, in order; answers `Some(false)` when a part
/// selects nothing, `Some(true)` when every part selects everything, and otherwise
/// drops the parts that select everything.
#[verifier::rlimit(40)]
fn optimize_data_and(v: &mut Vec<DataSelector>) -> (r: Option<bool>)
    requires
        data_optimizable(DataSelectorView::And(data_views(old(v)@))),
    ensures
        ({
            let flags = data_flags(data_opts(data_views(old(v)@)));
            &&& r == (if flags.contains(Some(false)) {
                Some(false)
            } else if positions_of(flags, true).len() == old(v)@.len() {
                Some(true)
            } else {
                None::<bool>
            })
            &&& r is None ==> data_views(final(v)@) == swap_removed_all(
                data_opts(data_views(old(v)@)),
                positions_of(flags, true),
            )
        }),
    decreases old(v)@,
{
    let ghost orig = v@;
    let ghost ov = data_views(orig);
    let ghost opts = data_opts(ov);
    let ghost flags = data_flags(opts);
    proof {
        lemma_data_views(orig);
        lemma_data_opts(ov);
    }
    let n = v.len();
    let mut anys: Vec<usize> = Vec::new();
    let mut i: usize = 0;
    while i < n
        invariant
            n == orig.len(),
            orig == old(v)@,
            ov == data_views(orig),
            opts == data_opts(ov),
            flags == data_flags(opts),
            ov.len() == n,
            opts.len() == n,
            forall|k: int| 0 <= k < n ==> #[trigger] ov[k] == orig[k]@,
            forall|k: int| 0 <= k < n ==> #[trigger] opts[k] == data_opt(ov[k]),
            data_optimizable(DataSelectorView::And(ov)),
            v@.len() == n,
            0 <= i <= n,
            forall|k: int| i <= k < n ==> #[trigger] v@[k] == orig[k],
            forall|k: int| 0 <= k < i ==> #[trigger] v@[k]@ == opts[k],
            forall|k: int| 0 <= k < i ==> #[trigger] flags[k] != Some(false),
            anys@.len() == positions_of(flags.take(i as int), true).len(),
            forall|k: int| 0 <= k < anys@.len() ==> #[trigger] anys@[k] as int == positions_of(flags.take(i as int), true)[k],
        decreases n - i,
    {
        proof {
            lemma_data_parts_smaller(ov, i as int);
            assert forall|j: int| 0 <= j < i implies data_as_bool(data_opt(#[trigger] ov[j])) != Some(false) by {
                assert(flags[j] != Some(false));
            }
            assert(data_optimizable(ov[i as int]));
            assert(decreases_to!(orig => orig[i as int]));
        }
        optimize_data(&mut v[i]);
        let b = data_as_bool_of(&v[i]);
        proof {
            assert(flags[i as int] == b);
            assert(flags.take(i + 1).drop_last() =~= flags.take(i as int));
        }
        match b {
            Some(false) => {
                proof {
                    assert(flags.contains(Some(false)));
                }
                return Some(false);
            },
            Some(true) => {
                anys.push(i);
            },
            None => {},
        }
        i = i + 1;
    }
    proof {
        assert(flags.take(n as int) =~= flags);
        assert(!flags.contains(Some(false))) by {
            if flags.contains(Some(false)) {
                let k = choose|k: int| 0 <= k < flags.len() && flags[k] == Some(false);
                assert(flags[k] != Some(false));
            }
        }
        lemma_positions_of(flags, true);
    }
    if n == 0 || anys.len() == n {
        return Some(true);
    }
    let ghost idx = positions_of(flags, true);
    proof {
        assert(data_views(v@) =~= opts) by {
            lemma_data_views(v@);
        }
        assert(removals_in_bounds(n as int, idx));
        assert(idx.skip(0) =~= idx);
    }
    let mut k: usize = 0;
    while k < anys.len()
        invariant
            idx == positions_of(flags, true),
            removals_in_bounds(n as int, idx),
            forall|m: int| 0 <= m < idx.len() ==> 0 <= #[trigger] idx[m],
            anys@.len() == idx.len(),
            forall|m: int| 0 <= m < anys@.len() ==> #[trigger] anys@[m] as int == idx[m],
            0 <= k <= anys@.len(),
            v@.len() == n - k,
            swap_removed_all(data_views(v@), idx.skip(k as int)) == swap_removed_all(opts, idx),
        decreases anys@.len() - k,
    {
        let a = anys[k];
        proof {
            assert(idx[k as int] < n - k);
            assert(idx.skip(k as int)[0] == idx[k as int]);
            assert(idx.skip(k as int).drop_first() =~= idx.skip(k + 1));
            lemma_data_views_swap_removed(v@, a as int);
        }
        v.swap_remove(a);
        k = k + 1;
    }
    proof {
        assert(idx.skip(k as int) =~= Seq::<int>::empty());
    }
    None
}

/// Simplifies the parts of a disjunction, in order; answers `Some(true)` when a part
/// selects everything or every part selects nothing, and otherwise drops the parts
/// that select nothing.
#[verifier::rlimit(40)]
fn optimize_data_or(v: &mut Vec<DataSelector>) -> (r: Option<bool>)
    requires
        data_optimizable(DataSelectorView::Or(data_views(old(v)@))),
    ensures
        ({
            let flags = data_flags(data_opts(data_views(old(v)@)));
            &&& r == (if flags.contains(Some(true)) {
                Some(true)
            } else if positions_of(flags, false).len() == old(v)@.len() {
                Some(true)
            } else {
                None::<bool>
            })
            &&& r is None ==> data_views(final(v)@) == swap_removed_all(
                data_opts(data_views(old(v)@)),
                positions_of(flags, false),
            )
        }),
    decreases old(v)@,
{
    let ghost orig = v@;
    let ghost ov = data_views(orig);
    let ghost opts = data_opts(ov);
    let ghost flags = data_flags(opts);
    proof {
        lemma_data_views(orig);
        lemma_data_opts(ov);
    }
    let n = v.len();
    let mut nones: Vec<usize> = Vec::new();
    let mut i: usize = 0;
    while i < n
        invariant
            n == orig.len(),
            orig == old(v)@,
            ov == data_views(orig),
            opts == data_opts(ov),
            flags == data_flags(opts),
            ov.len() == n,
            opts.len() == n,
            forall|k: int| 0 <= k < n ==> #[trigger] ov[k] == orig[k]@,
            forall|k: int| 0 <= k < n ==> #[trigger] opts[k] == data_opt(ov[k]),
            data_optimizable(DataSelectorView::Or(ov)),
            v@.len() == n,
            0 <= i <= n,
            forall|k: int| i <= k < n ==> #[trigger] v@[k] == orig[k],
            forall|k: int| 0 <= k < i ==> #[trigger] v@[k]@ == opts[k],
            forall|k: int| 0 <= k < i ==> #[trigger] flags[k] != Some(true),
            nones@.len() == positions_of(flags.take(i as int), false).len(),
            forall|k: int| 0 <= k < nones@.len() ==> #[trigger] nones@[k] as int == positions_of(flags.take(i as int), false)[k],
        decreases n - i,
    {
        proof {
            lemma_data_parts_smaller(ov, i as int);
            assert forall|j: int| 0 <= j < i implies data_as_bool(data_opt(#[trigger] ov[j])) != Some(true) by {
                assert(flags[j] != Some(true));
            }
            assert(data_optimizable(ov[i as int]));
            assert(decreases_to!(orig => orig[i as int]));
        }
        optimize_data(&mut v[i]);
        let b = data_as_bool_of(&v[i]);
        proof {
            assert(flags[i as int] == b);
            assert(flags.take(i + 1).drop_last() =~= flags.take(i as int));
        }
        match b {
            Some(true) => {
                proof {
                    assert(flags.contains(Some(true)));
                }
                return Some(true);
            },
            Some(false) => {
                nones.push(i);
            },
            None => {},
        }
        i = i + 1;
    }
    proof {
        assert(flags.take(n as int) =~= flags);
        assert(!flags.contains(Some(true))) by {
            if flags.contains(Some(true)) {
                let k = choose|k: int| 0 <= k < flags.len() && flags[k] == Some(true);
                assert(flags[k] != Some(true));
            }
        }
        lemma_positions_of(flags, false);
    }
    if n == 0 || nones.len() == n {
        return Some(true);
    }
    let ghost idx = positions_of(flags, false);
    proof {
        assert(data_views(v@) =~= opts) by {
            lemma_data_views(v@);
        }
        assert(removals_in_bounds(n as int, idx));
        assert(idx.skip(0) =~= idx);
    }
    let mut k: usize = 0;
    while k < nones.len()
        invariant
            idx == positions_of(flags, false),
            removals_in_bounds(n as int, idx),
            forall|m: int| 0 <= m < idx.len() ==> 0 <= #[trigger] idx[m],
            nones@.len() == idx.len(),
            forall|m: int| 0 <= m < nones@.len() ==> #[trigger] nones@[m] as int == idx[m],
            0 <= k <= nones@.len(),
            v@.len() == n - k,
            swap_removed_all(data_views(v@), idx.skip(k as int)) == swap_removed_all(opts, idx),
        decreases nones@.len() - k,
    {
        let a = nones[k];
        proof {
            assert(idx[k as int] < n - k);
            assert(idx.skip(k as int)[0] == idx[k as int]);
            assert(idx.skip(k as int).drop_first() =~= idx.skip(k + 1));
            lemma_data_views_swap_removed(v@, a as int);
        }
        v.swap_remove(a);
        k = k + 1;
    }
    proof {
        assert(idx.skip(k as int) =~= Seq::<int>::empty());
    }
    None
}

/// A simplified conjunction selects what the conjunction selects, given that each part
/// that is simplified selects what it did.
proof fn lemma_data_and_opt(v: Seq<DataSelectorView>, values: Seq<ValueView>)
    requires
        (!data_flags(data_opts(v)).contains(Some(false)) && positions_of(data_flags(data_opts(v)), true).len() != v.len())
            ==> removals_in_bounds(v.len() as int, positions_of(data_flags(data_opts(v)), true)),
        forall|j: int|
            0 <= j < v.len() && (forall|m: int| 0 <= m < j ==> #[trigger] data_flags(data_opts(v))[m] != Some(false))
                ==> data_selects(#[trigger] data_opts(v)[j], values) == data_selects(v[j], values),
    ensures
        data_selects(data_opt(DataSelectorView::And(v)), values) == data_selects(DataSelectorView::And(v), values),
{
    let opts = data_opts(v);
    let flags = data_flags(opts);
    lemma_data_opts(v);
    lemma_positions_of(flags, true);
    if flags.contains(Some(false)) {
        let k = lemma_first_flag(flags, false);
        assert(opts[k] == DataSelectorView::Nothing);
        assert(data_selects(opts[k], values) == data_selects(v[k], values));
        lemma_data_parts_smaller(v, k);
        assert(!data_selects(DataSelectorView::And(v), values));
    } else {
        assert forall|j: int| 0 <= j < v.len() implies data_selects(#[trigger] opts[j], values) == data_selects(v[j], values) by {
            assert forall|m: int| 0 <= m < j implies #[trigger] flags[m] != Some(false) by {
                if flags[m] == Some(false) {
                    assert(flags.contains(Some(false)));
                }
            }
        }
        let idx = positions_of(flags, true);
        if idx.len() == v.len() {
            assert forall|j: int| 0 <= j < v.len() implies data_selects(#[trigger] v[j], values) by {
                assert(flags[j] == Some(true));
                assert(opts[j] == DataSelectorView::Any);
            }
        } else {
            let rem = swap_removed_all(opts, idx);
            lemma_swap_removed_all_within(opts, idx);
            if data_selects(DataSelectorView::And(rem), values) {
                assert forall|j: int| 0 <= j < v.len() implies data_selects(#[trigger] v[j], values) by {
                    if flags[j] == Some(true) {
                        assert(opts[j] == DataSelectorView::Any);
                    } else {
                        assert(!idx.contains(j));
                        lemma_swap_removed_all_keeps(opts, idx, j);
                        let k = choose|k: int| 0 <= k < rem.len() && rem[k] == opts[j];
                        lemma_data_parts_smaller(rem, k);
                        assert(data_selects(rem[k], values));
                    }
                }
            }
            if data_selects(DataSelectorView::And(v), values) {
                assert forall|k: int| 0 <= k < rem.len() implies data_selects(#[trigger] rem[k], values) by {
                    assert(rem.contains(rem[k]));
                    assert(opts.contains(rem[k]));
                    let j = choose|j: int| 0 <= j < opts.len() && opts[j] == rem[k];
                    lemma_data_parts_smaller(v, j);
                    assert(data_selects(v[j], values));
                }
            }
        }
    }
}

/// A simplified disjunction selects what the disjunction selects, given that each part
/// that is simplified selects what it did and that not every part selects nothing.
proof fn lemma_data_or_opt(v: Seq<DataSelectorView>, values: Seq<ValueView>)
    requires
        (!data_flags(data_opts(v)).contains(Some(true)) && positions_of(data_flags(data_opts(v)), false).len() != v.len())
            ==> removals_in_bounds(v.len() as int, positions_of(data_flags(data_opts(v)), false)),
        data_flags(data_opts(v)).contains(Some(true)) || positions_of(data_flags(data_opts(v)), false).len() != v.len(),
        forall|j: int|
            0 <= j < v.len() && (forall|m: int| 0 <= m < j ==> #[trigger] data_flags(data_opts(v))[m] != Some(true))
                ==> data_selects(#[trigger] data_opts(v)[j], values) == data_selects(v[j], values),
    ensures
        data_selects(data_opt(DataSelectorView::Or(v)), values) == data_selects(DataSelectorView::Or(v), values),
{
    let opts = data_opts(v);
    let flags = data_flags(opts);
    lemma_data_opts(v);
    lemma_positions_of(flags, false);
    if flags.contains(Some(true)) {
        let k = lemma_first_flag(flags, true);
        assert(opts[k] == DataSelectorView::Any);
        assert(data_selects(opts[k], values) == data_selects(v[k], values));
        lemma_data_parts_smaller(v, k);
        assert(data_selects(DataSelectorView::Or(v), values));
    } else {
        assert forall|j: int| 0 <= j < v.len() implies data_selects(#[trigger] opts[j], values) == data_selects(v[j], values) by {
            assert forall|m: int| 0 <= m < j implies #[trigger] flags[m] != Some(true) by {
                if flags[m] == Some(true) {
                    assert(flags.contains(Some(true)));
                }
            }
        }
        let idx = positions_of(flags, false);
        let rem = swap_removed_all(opts, idx);
        lemma_swap_removed_all_within(opts, idx);
        if data_selects(DataSelectorView::Or(rem), values) {
            let k = choose|k: int| 0 <= k < rem.len() && data_selects(#[trigger] rem[k], values);
            assert(rem.contains(rem[k]));
            assert(opts.contains(rem[k]));
            let j = choose|j: int| 0 <= j < opts.len() && opts[j] == rem[k];
            lemma_data_parts_smaller(v, j);
            assert(data_selects(v[j], values));
        }
        if data_selects(DataSelectorView::Or(v), values) {
            let j = choose|j: int| 0 <= j < v.len() && data_selects(#[trigger] v[j], values);
            assert(data_selects(opts[j], values));
            if flags[j] == Some(false) {
                assert(opts[j] == DataSelectorView::Nothing);
            }
            assert(!idx.contains(j));
            lemma_swap_removed_all_keeps(opts, idx, j);
            let k = choose|k: int| 0 <= k < rem.len() && rem[k] == opts[j];
            lemma_data_parts_smaller(rem, k);
            assert(data_selects(rem[k], values));
        }
    }
}

/// Each part of a conjunction that is simplified selects what it did.
proof fn lemma_data_and_parts(v: Seq<DataSelectorView>, values: Seq<ValueView>)
    requires
        forall|i: int|
            0 <= i < v.len() && (forall|m: int| 0 <= m < i ==> data_as_bool(data_opt(#[trigger] v[m])) != Some(false))
                ==> data_optimizable(#[trigger] v[i]) && data_opt_faithful(v[i]),
    ensures
        forall|j: int|
            0 <= j < v.len() && (forall|m: int| 0 <= m < j ==> #[trigger] data_flags(data_opts(v))[m] != Some(false))
                ==> data_selects(#[trigger] data_opts(v)[j], values) == data_selects(v[j], values),
    decreases v,
{
    let opts = data_opts(v);
    let flags = data_flags(opts);
    lemma_data_opts(v);
    assert forall|j: int|
        0 <= j < v.len() && (forall|m: int| 0 <= m < j ==> #[trigger] flags[m] != Some(false))
            implies data_selects(#[trigger] opts[j], values) == data_selects(v[j], values) by {
        assert forall|m: int| 0 <= m < j implies data_as_bool(data_opt(#[trigger] v[m])) != Some(false) by {
            assert(flags[m] != Some(false));
        }
        assert(decreases_to!(v => v[j]));
        lemma_data_opt_selects(v[j], values);
    }
}

/// Each part of a disjunction that is simplified selects what it did.
proof fn lemma_data_or_parts(v: Seq<DataSelectorView>, values: Seq<ValueView>)
    requires
        forall|i: int|
            0 <= i < v.len() && (forall|m: int| 0 <= m < i ==> data_as_bool(data_opt(#[trigger] v[m])) != Some(true))
                ==> data_optimizable(#[trigger] v[i]) && data_opt_faithful(v[i]),
    ensures
        forall|j: int|
            0 <= j < v.len() && (forall|m: int| 0 <= m < j ==> #[trigger] data_flags(data_opts(v))[m] != Some(true))
                ==> data_selects(#[trigger] data_opts(v)[j], values) == data_selects(v[j], values),
    decreases v,
{
    let opts = data_opts(v);
    let flags = data_flags(opts);
    lemma_data_opts(v);
    assert forall|j: int|
        0 <= j < v.len() && (forall|m: int| 0 <= m < j ==> #[trigger] flags[m] != Some(true))
            implies data_selects(#[trigger] opts[j], values) == data_selects(v[j], values) by {
        assert forall|m: int| 0 <= m < j implies data_as_bool(data_opt(#[trigger] v[m])) != Some(true) by {
            assert(flags[m] != Some(true));
        }
        assert(decreases_to!(v => v[j]));
        lemma_data_opt_selects(v[j], values);
    }
}

/// Simplifying a data selector keeps what it selects, wherever simplification runs to
/// its end and no disjunction whose parts all select nothing is met.
pub proof fn lemma_data_opt_selects(s: DataSelectorView, values: Seq<ValueView>)
    requires
        data_optimizable(s),
        data_opt_faithful(s),
    ensures
        data_selects(data_opt(s), values) == data_selects(s, values),
    decreases s,
{
    match s {
        DataSelectorView::And(v) => {
            assert(decreases_to!(s => s->And_0));
            lemma_data_and_parts(v, values);
            lemma_data_and_opt(v, values);
        },
        DataSelectorView::Or(v) => {
            assert(decreases_to!(s => s->Or_0));
            lemma_data_or_parts(v, values);
            lemma_data_or_opt(v, values);
        },
        _ => {},
    }
}

/// The answers that the selectors of `v` give whatever they are asked about.
pub open spec fn link_flags(v: Seq<LinkSelectorView>) -> Seq<Option<bool>> {
    Seq::new(v.len(), |k: int| link_as_bool(v[k]))
}

/// `s` after `optimize`: a conjunction or disjunction simplifies its parts, in order,
/// and then collapses to `Any` or `Nothing` when a part decides it, or drops the parts
/// that do not matter (by `Vec::swap_remove`). A disjunction whose parts all select
/// nothing, or that has no parts, becomes `Any`. Other selectors stay as they are.
pub open spec fn link_opt(s: LinkSelectorView) -> LinkSelectorView
    decreases s,
{
    match s {
        LinkSelectorView::And(v) => {
            let flags = link_flags(link_opts(v));
            if flags.contains(Some(false)) {
                LinkSelectorView::Nothing
            } else if positions_of(flags, true).len() == v.len() {
                LinkSelectorView::Any
            } else {
                LinkSelectorView::And(swap_removed_all(link_opts(v), positions_of(flags, true)))
            }
        },
        LinkSelectorView::Or(v) => {
            let flags = link_flags(link_opts(v));
            if flags.contains(Some(true)) {
                LinkSelectorView::Any
            } else if positions_of(flags, false).len() == v.len() {
                LinkSelectorView::Any
            } else {
                LinkSelectorView::Or(swap_removed_all(link_opts(v), positions_of(flags, false)))
            }
        },
        _ => s,
    }
}

/// Each selector of `v` after `optimize`.
pub open spec fn link_opts(v: Seq<LinkSelectorView>) -> Seq<LinkSelectorView>
    decreases v,
{
    if v.len() == 0 {
        Seq::empty()
    } else {
        link_opts(v.subrange(0, v.len() - 1)).push(link_opt(v[v.len() - 1]))
    }
}

/// Whether `optimize` runs to its end on `s`: each removal of parts that do not matter
/// stays within the parts left. The parts after one that decides a conjunction or
/// disjunction are not simplified, so they do not count.
pub open spec fn link_optimizable(s: LinkSelectorView) -> bool
    decreases s,
{
    match s {
        LinkSelectorView::And(v) => {
            &&& forall|i: int|
                0 <= i < v.len() && (forall|j: int| 0 <= j < i ==> link_as_bool(link_opt(#[trigger] v[j])) != Some(false))
                    ==> link_optimizable(#[trigger] v[i])
            &&& (!link_flags(link_opts(v)).contains(Some(false)) && positions_of(link_flags(link_opts(v)), true).len() != v.len())
                ==> removals_in_bounds(v.len() as int, positions_of(link_flags(link_opts(v)), true))
        },
        LinkSelectorView::Or(v) => {
            &&& forall|i: int|
                0 <= i < v.len() && (forall|j: int| 0 <= j < i ==> link_as_bool(link_opt(#[trigger] v[j])) != Some(true))
                    ==> link_optimizable(#[trigger] v[i])
            &&& (!link_flags(link_opts(v)).contains(Some(true)) && positions_of(link_flags(link_opts(v)), false).len() != v.len())
                ==> removals_in_bounds(v.len() as int, positions_of(link_flags(link_opts(v)), false))
        },
        _ => true,
    }
}

/// Whether `optimize` keeps the meaning of `s`: it does, except where a disjunction
/// whose simplified parts all select nothing (or that has no parts) becomes `Any`.
pub open spec fn link_opt_faithful(s: LinkSelectorView) -> bool
    decreases s,
{
    match s {
        LinkSelectorView::And(v) => forall|i: int|
            0 <= i < v.len() && (forall|j: int| 0 <= j < i ==> link_as_bool(link_opt(#[trigger] v[j])) != Some(false))
                ==> link_opt_faithful(#[trigger] v[i]),
        LinkSelectorView::Or(v) => {
            &&& forall|i: int|
                0 <= i < v.len() && (forall|j: int| 0 <= j < i ==> link_as_bool(link_opt(#[trigger] v[j])) != Some(true))
                    ==> link_opt_faithful(#[trigger] v[i])
            &&& (link_flags(link_opts(v)).contains(Some(true)) || positions_of(link_flags(link_opts(v)), false).len() != v.len())
        },
        _ => true,
    }
}

/// The simplified parts are the parts simplified one by one.
pub proof fn lemma_link_opts(v: Seq<LinkSelectorView>)
    ensures
        link_opts(v).len() == v.len(),
        forall|i: int| 0 <= i < v.len() ==> #[trigger] link_opts(v)[i] == link_opt(v[i]),
    decreases v.len(),
{
    if v.len() > 0 {
        let init = v.subrange(0, v.len() - 1);
        lemma_link_opts(init);
        assert forall|i: int| 0 <= i < v.len() implies #[trigger] link_opts(v)[i] == link_opt(v[i]) by {
            if i < v.len() - 1 {
                assert(init[i] == v[i]);
            }
        }
    }
}

/// The views of a sequence commute with swap-removal.
proof fn lemma_link_views_swap_removed(s: Seq<LinkSelector>, i: int)
    requires
        0 <= i < s.len(),
    ensures
        link_views(swap_removed(s, i)) == swap_removed(link_views(s), i),
{
    lemma_link_views(s);
    lemma_link_views(swap_removed(s, i));
    assert(link_views(swap_removed(s, i)) =~= swap_removed(link_views(s), i));
}

/// The answer a link selector gives whatever it is asked about, if it has one.
fn link_as_bool_of(s: &LinkSelector) -> (r: Option<bool>)
    ensures
        r == link_as_bool(s@),
{
    match s {
        LinkSelector::Any => Some(true),
        LinkSelector::Nothing => Some(false),
        _ => None,
    }
}

/// Simplifies `s`.
fn optimize_link(s: &mut LinkSelector)
    requires
        link_optimizable(old(s)@),
    ensures
        final(s)@ == link_opt(old(s)@),
    decreases *old(s),
{
    let mut taken = LinkSelector::Any;
    core::mem::swap(&mut taken, s);
    match taken {
        LinkSelector::And(mut v) => {
            proof {
                assert(decreases_to!(*old(s) => (*old(s))->And_0));
                assert(decreases_to!(v => v@));
            }
            let ghost v0 = v@;
            proof {
                assert(old(s)@ == LinkSelectorView::And(link_views(v0)));
            }
            let r = optimize_link_and(&mut v);
            proof {
                let ghost flags = link_flags(link_opts(link_views(v0)));
                assert(link_opt(old(s)@) == (if flags.contains(Some(false)) {
                    LinkSelectorView::Nothing
                } else if positions_of(flags, true).len() == link_views(v0).len() {
                    LinkSelectorView::Any
                } else {
                    LinkSelectorView::And(swap_removed_all(link_opts(link_views(v0)), positions_of(flags, true)))
                }));
                lemma_link_views(v0);
            }
            match r {
                Some(true) => {
                    *s = LinkSelector::Any;
                },
                Some(false) => {
                    *s = LinkSelector::Nothing;
                },
                None => {
                    *s = LinkSelector::And(v);
                    assert(s@ == LinkSelectorView::And(link_views(v@)));
                },
            }
        },
        LinkSelector::Or(mut v) => {
            proof {
                assert(decreases_to!(*old(s) => (*old(s))->Or_0));
                assert(decreases_to!(v => v@));
            }
            let ghost v0 = v@;
            proof {
                assert(old(s)@ == LinkSelectorView::Or(link_views(v0)));
            }
            let r = optimize_link_or(&mut v);
            proof {
                let ghost flags = link_flags(link_opts(link_views(v0)));
                assert(link_opt(old(s)@) == (if flags.contains(Some(true)) {
                    LinkSelectorView::Any
                } else if positions_of(flags, false).len() == link_views(v0).len() {
                    LinkSelectorView::Any
                } else {
                    LinkSelectorView::Or(swap_removed_all(link_opts(link_views(v0)), positions_of(flags, false)))
                }));
                lemma_link_views(v0);
            }
            match r {
                Some(true) => {
                    *s = LinkSelector::Any;
                },
                Some(false) => {
                    *s = LinkSelector::Nothing;
                },
                None => {
                    *s = LinkSelector::Or(v);
                },
            }
        },
        other => {
            proof {
                assert(!(other@ is And) && !(other@ is Or));
                assert(link_opt(other@) == other@);
            }
            *s = other;
        },
    }
}

/// Simplifies the parts of a conjunction, in order; answers `Some(false)` when a part
/// selects nothing, `Some(true)` when every part selects everything, and otherwise
/// drops the parts that select everything.
#[verifier::rlimit(40)]
fn optimize_link_and(v: &mut Vec<LinkSelector>) -> (r: Option<bool>)
    requires
        link_optimizable(LinkSelectorView::And(link_views(old(v)@))),
    ensures
        ({
            let flags = link_flags(link_opts(link_views(old(v)@)));
            &&& r == (if flags.contains(Some(false)) {
                Some(false)
            } else if positions_of(flags, true).len() == old(v)@.len() {
                Some(true)
            } else {
                None::<bool>
            })
            &&& r is None ==> link_views(final(v)@) == swap_removed_all(
                link_opts(link_views(old(v)@)),
                positions_of(flags, true),
            )
        }),
    decreases old(v)@,
{
    let ghost orig = v@;
    let ghost ov = link_views(orig);
    let ghost opts = link_opts(ov);
    let ghost flags = link_flags(opts);
    proof {
        lemma_link_views(orig);
        lemma_link_opts(ov);
    }
    let n = v.len();
    let mut anys: Vec<usize> = Vec::new();
    let mut i: usize = 0;
    while i < n
        invariant
            n == orig.len(),
            orig == old(v)@,
            ov == link_views(orig),
            opts == link_opts(ov),
            flags == link_flags(opts),
            ov.len() == n,
            opts.len() == n,
            forall|k: int| 0 <= k < n ==> #[trigger] ov[k] == orig[k]@,
            forall|k: int| 0 <= k < n ==> #[trigger] opts[k] == link_opt(ov[k]),
            link_optimizable(LinkSelectorView::And(ov)),
            v@.len() == n,
            0 <= i <= n,
            forall|k: int| i <= k < n ==> #[trigger] v@[k] == orig[k],
            forall|k: int| 0 <= k < i ==> #[trigger] v@[k]@ == opts[k],
            forall|k: int| 0 <= k < i ==> #[trigger] flags[k] != Some(false),
            anys@.len() == positions_of(flags.take(i as int), true).len(),
            forall|k: int| 0 <= k < anys@.len() ==> #[trigger] anys@[k] as int == positions_of(flags.take(i as int), true)[k],
        decreases n - i,
    {
        proof {
            lemma_link_parts_smaller(ov, i as int);
            assert forall|j: int| 0 <= j < i implies link_as_bool(link_opt(#[trigger] ov[j])) != Some(false) by {
                assert(flags[j] != Some(false));
            }
            assert(link_optimizable(ov[i as int]));
            assert(decreases_to!(orig => orig[i as int]));
        }
        optimize_link(&mut v[i]);
        let b = link_as_bool_of(&v[i]);
        proof {
            assert(flags[i as int] == b);
            assert(flags.take(i + 1).drop_last() =~= flags.take(i as int));
        }
        match b {
            Some(false) => {
                proof {
                    assert(flags.contains(Some(false)));
                }
                return Some(false);
            },
            Some(true) => {
                anys.push(i);
            },
            None => {},
        }
        i = i + 1;
    }
    proof {
        assert(flags.take(n as int) =~= flags);
        assert(!flags.contains(Some(false))) by {
            if flags.contains(Some(false)) {
                let k = choose|k: int| 0 <= k < flags.len() && flags[k] == Some(false);
                assert(flags[k] != Some(false));
            }
        }
        lemma_positions_of(flags, true);
    }
    if n == 0 || anys.len() == n {
        return Some(true);
    }
    let ghost idx = positions_of(flags, true);
    proof {
        assert(link_views(v@) =~= opts) by {
            lemma_link_views(v@);
        }
        assert(removals_in_bounds(n as int, idx));
        assert(idx.skip(0) =~= idx);
    }
    let mut k: usize = 0;
    while k < anys.len()
        invariant
            idx == positions_of(flags, true),
            removals_in_bounds(n as int, idx),
            forall|m: int| 0 <= m < idx.len() ==> 0 <= #[trigger] idx[m],
            anys@.len() == idx.len(),
            forall|m: int| 0 <= m < anys@.len() ==> #[trigger] anys@[m] as int == idx[m],
            0 <= k <= anys@.len(),
            v@.len() == n - k,
            swap_removed_all(link_views(v@), idx.skip(k as int)) == swap_removed_all(opts, idx),
        decreases anys@.len() - k,
    {
        let a = anys[k];
        proof {
            assert(idx[k as int] < n - k);
            assert(idx.skip(k as int)[0] == idx[k as int]);
            assert(idx.skip(k as int).drop_first() =~= idx.skip(k + 1));
            lemma_link_views_swap_removed(v@, a as int);
        }
        v.swap_remove(a);
        k = k + 1;
    }
    proof {
        assert(idx.skip(k as int) =~= Seq::<int>::empty());
    }
    None
}

/// Simplifies the parts of a disjunction, in order; answers `Some(true)` when a part
/// selects everything or every part selects nothing, and otherwise drops the parts
/// that select nothing.
#[verifier::rlimit(40)]
fn optimize_link_or(v: &mut Vec<LinkSelector>) -> (r: Option<bool>)
    requires
        link_optimizable(LinkSelectorView::Or(link_views(old(v)@))),
    ensures
        ({
            let flags = link_flags(link_opts(link_views(old(v)@)));
            &&& r == (if flags.contains(Some(true)) {
                Some(true)
            } else if positions_of(flags, false).len() == old(v)@.len() {
                Some(true)
            } else {
                None::<bool>
            })
            &&& r is None ==> link_views(final(v)@) == swap_removed_all(
                link_opts(link_views(old(v)@)),
                positions_of(flags, false),
            )
        }),
    decreases old(v)@,
{
    let ghost orig = v@;
    let ghost ov = link_views(orig);
    let ghost opts = link_opts(ov);
    let ghost flags = link_flags(opts);
    proof {
        lemma_link_views(orig);
        lemma_link_opts(ov);
    }
    let n = v.len();
    let mut nones: Vec<usize> = Vec::new();
    let mut i: usize = 0;
    while i < n
        invariant
            n == orig.len(),
            orig == old(v)@,
            ov == link_views(orig),
            opts == link_opts(ov),
            flags == link_flags(opts),
            ov.len() == n,
            opts.len() == n,
            forall|k: int| 0 <= k < n ==> #[trigger] ov[k] == orig[k]@,
            forall|k: int| 0 <= k < n ==> #[trigger] opts[k] == link_opt(ov[k]),
            link_optimizable(LinkSelectorView::Or(ov)),
            v@.len() == n,
            0 <= i <= n,
            forall|k: int| i <= k < n ==> #[trigger] v@[k] == orig[k],
            forall|k: int| 0 <= k < i ==> #[trigger] v@[k]@ == opts[k],
            forall|k: int| 0 <= k < i ==> #[trigger] flags[k] != Some(true),
            nones@.len() == positions_of(flags.take(i as int), false).len(),
            forall|k: int| 0 <= k < nones@.len() ==> #[trigger] nones@[k] as int == positions_of(flags.take(i as int), false)[k],
        decreases n - i,
    {
        proof {
            lemma_link_parts_smaller(ov, i as int);
            assert forall|j: int| 0 <= j < i implies link_as_bool(link_opt(#[trigger] ov[j])) != Some(true) by {
                assert(flags[j] != Some(true));
            }
            assert(link_optimizable(ov[i as int]));
            assert(decreases_to!(orig => orig[i as int]));
        }
        optimize_link(&mut v[i]);
        let b = link_as_bool_of(&v[i]);
        proof {
            assert(flags[i as int] == b);
            assert(flags.take(i + 1).drop_last() =~= flags.take(i as int));
        }
        match b {
            Some(true) => {
                proof {
                    assert(flags.contains(Some(true)));
                }
                return Some(true);
            },
            Some(false) => {
                nones.push(i);
            },
            None => {},
        }
        i = i + 1;
    }
    proof {
        assert(flags.take(n as int) =~= flags);
        assert(!flags.contains(Some(true))) by {
            if flags.contains(Some(true)) {
                let k = choose|k: int| 0 <= k < flags.len() && flags[k] == Some(true);
                assert(flags[k] != Some(true));
            }
        }
        lemma_positions_of(flags, false);
    }
    if n == 0 || nones.len() == n {
        return Some(true);
    }
    let ghost idx = positions_of(flags, false);
    proof {
        assert(link_views(v@) =~= opts) by {
            lemma_link_views(v@);
        }
        assert(removals_in_bounds(n as int, idx));
        assert(idx.skip(0) =~= idx);
    }
    let mut k: usize = 0;
    while k < nones.len()
        invariant
            idx == positions_of(flags, false),
            removals_in_bounds(n as int, idx),
            forall|m: int| 0 <= m < idx.len() ==> 0 <= #[trigger] idx[m],
            nones@.len() == idx.len(),
            forall|m: int| 0 <= m < nones@.len() ==> #[trigger] nones@[m] as int == idx[m],
            0 <= k <= nones@.len(),
            v@.len() == n - k,
            swap_removed_all(link_views(v@), idx.skip(k as int)) == swap_removed_all(opts, idx),
        decreases nones@.len() - k,
    {
        let a = nones[k];
        proof {
            assert(idx[k as int] < n - k);
            assert(idx.skip(k as int)[0] == idx[k as int]);
            assert(idx.skip(k as int).drop_first() =~= idx.skip(k + 1));
            lemma_link_views_swap_removed(v@, a as int);
        }
        v.swap_remove(a);
        k = k + 1;
    }
    proof {
        assert(idx.skip(k as int) =~= Seq::<int>::empty());
    }
    None
}

/// A simplified conjunction selects what the conjunction selects, given that each part
/// that is simplified selects what it did.
proof fn lemma_link_and_opt(v: Seq<LinkSelectorView>, key: Option<Seq<ValueView>>, target: Seq<ValueView>)
    requires
        (!link_flags(link_opts(v)).contains(Some(false)) && positions_of(link_flags(link_opts(v)), true).len() != v.len())
            ==> removals_in_bounds(v.len() as int, positions_of(link_flags(link_opts(v)), true)),
        forall|j: int|
            0 <= j < v.len() && (forall|m: int| 0 <= m < j ==> #[trigger] link_flags(link_opts(v))[m] != Some(false))
                ==> link_selects(#[trigger] link_opts(v)[j], key, target) == link_selects(v[j], key, target),
    ensures
        link_selects(link_opt(LinkSelectorView::And(v)), key, target) == link_selects(LinkSelectorView::And(v), key, target),
{
    let opts = link_opts(v);
    let flags = link_flags(opts);
    lemma_link_opts(v);
    lemma_positions_of(flags, true);
    if flags.contains(Some(false)) {
        let k = lemma_first_flag(flags, false);
        assert(opts[k] == LinkSelectorView::Nothing);
        assert(link_selects(opts[k], key, target) == link_selects(v[k], key, target));
        lemma_link_parts_smaller(v, k);
        assert(!link_selects(LinkSelectorView::And(v), key, target));
    } else {
        assert forall|j: int| 0 <= j < v.len() implies link_selects(#[trigger] opts[j], key, target) == link_selects(v[j], key, target) by {
            assert forall|m: int| 0 <= m < j implies #[trigger] flags[m] != Some(false) by {
                if flags[m] == Some(false) {
                    assert(flags.contains(Some(false)));
                }
            }
        }
        let idx = positions_of(flags, true);
        if idx.len() == v.len() {
            assert forall|j: int| 0 <= j < v.len() implies link_selects(#[trigger] v[j], key, target) by {
                assert(flags[j] == Some(true));
                assert(opts[j] == LinkSelectorView::Any);
            }
        } else {
            let rem = swap_removed_all(opts, idx);
            lemma_swap_removed_all_within(opts, idx);
            if link_selects(LinkSelectorView::And(rem), key, target) {
                assert forall|j: int| 0 <= j < v.len() implies link_selects(#[trigger] v[j], key, target) by {
                    if flags[j] == Some(true) {
                        assert(opts[j] == LinkSelectorView::Any);
                    } else {
                        assert(!idx.contains(j));
                        lemma_swap_removed_all_keeps(opts, idx, j);
                        let k = choose|k: int| 0 <= k < rem.len() && rem[k] == opts[j];
                        lemma_link_parts_smaller(rem, k);
                        assert(link_selects(rem[k], key, target));
                    }
                }
            }
            if link_selects(LinkSelectorView::And(v), key, target) {
                assert forall|k: int| 0 <= k < rem.len() implies link_selects(#[trigger] rem[k], key, target) by {
                    assert(rem.contains(rem[k]));
                    assert(opts.contains(rem[k]));
                    let j = choose|j: int| 0 <= j < opts.len() && opts[j] == rem[k];
                    lemma_link_parts_smaller(v, j);
                    assert(link_selects(v[j], key, target));
                }
            }
        }
    }
}

/// A simplified disjunction selects what the disjunction selects, given that each part
/// that is simplified selects what it did and that not every part selects nothing.
proof fn lemma_link_or_opt(v: Seq<LinkSelectorView>, key: Option<Seq<ValueView>>, target: Seq<ValueView>)
    requires
        (!link_flags(link_opts(v)).contains(Some(true)) && positions_of(link_flags(link_opts(v)), false).len() != v.len())
            ==> removals_in_bounds(v.len() as int, positions_of(link_flags(link_opts(v)), false)),
        link_flags(link_opts(v)).contains(Some(true)) || positions_of(link_flags(link_opts(v)), false).len() != v.len(),
        forall|j: int|
            0 <= j < v.len() && (forall|m: int| 0 <= m < j ==> #[trigger] link_flags(link_opts(v))[m] != Some(true))
                ==> link_selects(#[trigger] link_opts(v)[j], key, target) == link_selects(v[j], key, target),
    ensures
        link_selects(link_opt(LinkSelectorView::Or(v)), key, target) == link_selects(LinkSelectorView::Or(v), key, target),
{
    let opts = link_opts(v);
    let flags = link_flags(opts);
    lemma_link_opts(v);
    lemma_positions_of(flags, false);
    if flags.contains(Some(true)) {
        let k = lemma_first_flag(flags, true);
        assert(opts[k] == LinkSelectorView::Any);
        assert(link_selects(opts[k], key, target) == link_selects(v[k], key, target));
        lemma_link_parts_smaller(v, k);
        assert(link_selects(LinkSelectorView::Or(v), key, target));
    } else {
        assert forall|j: int| 0 <= j < v.len() implies link_selects(#[trigger] opts[j], key, target) == link_selects(v[j], key, target) by {
            assert forall|m: int| 0 <= m < j implies #[trigger] flags[m] != Some(true) by {
                if flags[m] == Some(true) {
                    assert(flags.contains(Some(true)));
                }
            }
        }
        let idx = positions_of(flags, false);
        let rem = swap_removed_all(opts, idx);
        lemma_swap_removed_all_within(opts, idx);
        if link_selects(LinkSelectorView::Or(rem), key, target) {
            let k = choose|k: int| 0 <= k < rem.len() && link_selects(#[trigger] rem[k], key, target);
            assert(rem.contains(rem[k]));
            assert(opts.contains(rem[k]));
            let j = choose|j: int| 0 <= j < opts.len() && opts[j] == rem[k];
            lemma_link_parts_smaller(v, j);
            assert(link_selects(v[j], key, target));
        }
        if link_selects(LinkSelectorView::Or(v), key, target) {
            let j = choose|j: int| 0 <= j < v.len() && link_selects(#[trigger] v[j], key, target);
            assert(link_selects(opts[j], key, target));
            if flags[j] == Some(false) {
                assert(opts[j] == LinkSelectorView::Nothing);
            }
            assert(!idx.contains(j));
            lemma_swap_removed_all_keeps(opts, idx, j);
            let k = choose|k: int| 0 <= k < rem.len() && rem[k] == opts[j];
            lemma_link_parts_smaller(rem, k);
            assert(link_selects(rem[k], key, target));
        }
    }
}

/// Each part of a conjunction that is simplified selects what it did.
proof fn lemma_link_and_parts(v: Seq<LinkSelectorView>, key: Option<Seq<ValueView>>, target: Seq<ValueView>)
    requires
        forall|i: int|
            0 <= i < v.len() && (forall|m: int| 0 <= m < i ==> link_as_bool(link_opt(#[trigger] v[m])) != Some(false))
                ==> link_optimizable(#[trigger] v[i]) && link_opt_faithful(v[i]),
    ensures
        forall|j: int|
            0 <= j < v.len() && (forall|m: int| 0 <= m < j ==> #[trigger] link_flags(link_opts(v))[m] != Some(false))
                ==> link_selects(#[trigger] link_opts(v)[j], key, target) == link_selects(v[j], key, target),
    decreases v,
{
    let opts = link_opts(v);
    let flags = link_flags(opts);
    lemma_link_opts(v);
    assert forall|j: int|
        0 <= j < v.len() && (forall|m: int| 0 <= m < j ==> #[trigger] flags[m] != Some(false))
            implies link_selects(#[trigger] opts[j], key, target) == link_selects(v[j], key, target) by {
        assert forall|m: int| 0 <= m < j implies link_as_bool(link_opt(#[trigger] v[m])) != Some(false) by {
            assert(flags[m] != Some(false));
        }
        assert(decreases_to!(v => v[j]));
        lemma_link_opt_selects(v[j], key, target);
    }
}

/// Each part of a disjunction that is simplified selects what it did.
proof fn lemma_link_or_parts(v: Seq<LinkSelectorView>, key: Option<Seq<ValueView>>, target: Seq<ValueView>)
    requires
        forall|i: int|
            0 <= i < v.len() && (forall|m: int| 0 <= m < i ==> link_as_bool(link_opt(#[trigger] v[m])) != Some(true))
                ==> link_optimizable(#[trigger] v[i]) && link_opt_faithful(v[i]),
    ensures
        forall|j: int|
            0 <= j < v.len() && (forall|m: int| 0 <= m < j ==> #[trigger] link_flags(link_opts(v))[m] != Some(true))
                ==> link_selects(#[trigger] link_opts(v)[j], key, target) == link_selects(v[j], key, target),
    decreases v,
{
    let opts = link_opts(v);
    let flags = link_flags(opts);
    lemma_link_opts(v);
    assert forall|j: int|
        0 <= j < v.len() && (forall|m: int| 0 <= m < j ==> #[trigger] flags[m] != Some(true))
            implies link_selects(#[trigger] opts[j], key, target) == link_selects(v[j], key, target) by {
        assert forall|m: int| 0 <= m < j implies link_as_bool(link_opt(#[trigger] v[m])) != Some(true) by {
            assert(flags[m] != Some(true));
        }
        assert(decreases_to!(v => v[j]));
        lemma_link_opt_selects(v[j], key, target);
    }
}

/// Simplifying a link selector keeps what it selects, wherever simplification runs to
/// its end and no disjunction whose parts all select nothing is met.
pub proof fn lemma_link_opt_selects(s: LinkSelectorView, key: Option<Seq<ValueView>>, target: Seq<ValueView>)
    requires
        link_optimizable(s),
        link_opt_faithful(s),
    ensures
        link_selects(link_opt(s), key, target) == link_selects(s, key, target),
    decreases s,
{
    match s {
        LinkSelectorView::And(v) => {
            assert(decreases_to!(s => s->And_0));
            lemma_link_and_parts(v, key, target);
            lemma_link_and_opt(v, key, target);
        },
        LinkSelectorView::Or(v) => {
            assert(decreases_to!(s => s->Or_0));
            lemma_link_or_parts(v, key, target);
            lemma_link_or_opt(v, key, target);
        },
        _ => {},
    }
}

impl<D: Data + ?Sized> Selector<D> for DataSelector {
    open spec fn spec_selects(&self, obj: &D) -> bool {
        data_selects(self@, obj.spec_values())
    }

    open spec fn spec_undecided(&self, obj: &D) -> bool {
        data_undecided(self@, obj.spec_values())
    }

    open spec fn spec_as_bool(&self) -> Option<bool> {
        data_as_bool(self@)
    }

    open spec fn spec_optimizable(&self) -> bool {
        data_optimizable(self@)
    }

    open spec fn spec_optimized(view: DataSelectorView) -> DataSelectorView {
        data_opt(view)
    }

    fn selects(&self, obj: &D) -> (r: bool) {
        select_data(self, obj)
    }

    fn as_bool(&self) -> (r: Option<bool>) {
        data_as_bool_of(self)
    }

    fn optimize(&mut self) {
        optimize_data(self)
    }
}

impl<L: Link> Selector<L> for LinkSelector {
    open spec fn spec_selects(&self, obj: &L) -> bool {
        link_selects(self@, key_values(*obj), obj.spec_target().spec_values())
    }

    open spec fn spec_undecided(&self, obj: &L) -> bool {
        link_undecided(self@, key_values(*obj), obj.spec_target().spec_values())
    }

    open spec fn spec_as_bool(&self) -> Option<bool> {
        link_as_bool(self@)
    }

    open spec fn spec_optimizable(&self) -> bool {
        link_optimizable(self@)
    }

    open spec fn spec_optimized(view: LinkSelectorView) -> LinkSelectorView {
        link_opt(view)
    }

    fn selects(&self, obj: &L) -> (r: bool) {
        assert(<LinkSelector as Selector<L>>::spec_undecided(self, obj) == link_undecided(self@, key_values(*obj), obj.spec_target().spec_values()));
        assert(<LinkSelector as Selector<L>>::spec_selects(self, obj) == link_selects(self@, key_values(*obj), obj.spec_target().spec_values()));
        select_link(self, obj)
    }

    fn as_bool(&self) -> (r: Option<bool>) {
        link_as_bool_of(self)
    }

    fn optimize(&mut self) {
        optimize_link(self)
    }
}

/// `a.and(b)` selects exactly what both `a` and `b` select.
pub proof fn lemma_data_and_selects(a: DataSelectorView, b: DataSelectorView, values: Seq<ValueView>)
    ensures
        data_selects(data_and(a, b), values) == (data_selects(a, values) && data_selects(b, values)),
{
    match a {
        DataSelectorView::And(v) => {
            let w = v.push(b);
            lemma_data_parts_smaller(w, w.len() - 1);
            assert(w[w.len() - 1] == b);
            assert forall|i: int| 0 <= i < v.len() implies #[trigger] w[i] == v[i] by {}
            if data_selects(a, values) && data_selects(b, values) {
                assert forall|i: int| 0 <= i < w.len() implies data_selects(#[trigger] w[i], values) by {
                    if i < v.len() {
                        lemma_data_parts_smaller(v, i);
                    }
                }
            }
            if data_selects(data_and(a, b), values) {
                assert forall|i: int| 0 <= i < v.len() implies data_selects(#[trigger] v[i], values) by {
                    lemma_data_parts_smaller(w, i);
                    assert(w[i] == v[i]);
                }
            }
        },
        _ => {
            let w = seq![a, b];
            lemma_data_parts_smaller(w, 0);
            lemma_data_parts_smaller(w, 1);
        },
    }
}

/// `a.or(b)` selects exactly what `a` or `b` selects.
pub proof fn lemma_data_or_selects(a: DataSelectorView, b: DataSelectorView, values: Seq<ValueView>)
    ensures
        data_selects(data_or(a, b), values) == (data_selects(a, values) || data_selects(b, values)),
{
    match a {
        DataSelectorView::Or(v) => {
            let w = v.push(b);
            lemma_data_parts_smaller(w, w.len() - 1);
            assert(w[w.len() - 1] == b);
            if data_selects(a, values) {
                let i = choose|i: int| 0 <= i < v.len() && data_selects(#[trigger] v[i], values);
                lemma_data_parts_smaller(w, i);
                assert(w[i] == v[i]);
            }
            if data_selects(data_or(a, b), values) && !data_selects(b, values) {
                let i = choose|i: int| 0 <= i < w.len() && data_selects(#[trigger] w[i], values);
                assert(w[i] == v[i]);
                lemma_data_parts_smaller(v, i);
            }
        },
        _ => {
            let w = seq![a, b];
            lemma_data_parts_smaller(w, 0);
            lemma_data_parts_smaller(w, 1);
        },
    }
}

/// A selector that answers the same whatever it is asked gives that answer about any
/// data.
pub proof fn lemma_data_as_bool(s: DataSelectorView, values: Seq<ValueView>)
    ensures
        data_as_bool(s) matches Some(b) ==> data_selects(s, values) == b,
{
}

/// `a.and(b)` selects exactly the links that both `a` and `b` select.
pub proof fn lemma_link_and_selects(
    a: LinkSelectorView,
    b: LinkSelectorView,
    key: Option<Seq<ValueView>>,
    target: Seq<ValueView>,
)
    ensures
        link_selects(link_and(a, b), key, target) == (link_selects(a, key, target) && link_selects(b, key, target)),
{
    match a {
        LinkSelectorView::And(v) => {
            let w = v.push(b);
            lemma_link_parts_smaller(w, w.len() - 1);
            assert(w[w.len() - 1] == b);
            assert forall|i: int| 0 <= i < v.len() implies #[trigger] w[i] == v[i] by {}
            if link_selects(a, key, target) && link_selects(b, key, target) {
                assert forall|i: int| 0 <= i < w.len() implies link_selects(#[trigger] w[i], key, target) by {
                    if i < v.len() {
                        lemma_link_parts_smaller(v, i);
                    }
                }
            }
            if link_selects(link_and(a, b), key, target) {
                assert forall|i: int| 0 <= i < v.len() implies link_selects(#[trigger] v[i], key, target) by {
                    lemma_link_parts_smaller(w, i);
                    assert(w[i] == v[i]);
                }
            }
        },
        _ => {
            let w = seq![a, b];
            lemma_link_parts_smaller(w, 0);
            lemma_link_parts_smaller(w, 1);
        },
    }
}

/// `a.or(b)` selects exactly the links that `a` or `b` selects.
pub proof fn lemma_link_or_selects(
    a: LinkSelectorView,
    b: LinkSelectorView,
    key: Option<Seq<ValueView>>,
    target: Seq<ValueView>,
)
    ensures
        link_selects(link_or(a, b), key, target) == (link_selects(a, key, target) || link_selects(b, key, target)),
{
    match a {
        LinkSelectorView::Or(v) => {
            let w = v.push(b);
            lemma_link_parts_smaller(w, w.len() - 1);
            assert(w[w.len() - 1] == b);
            if link_selects(a, key, target) {
                let i = choose|i: int| 0 <= i < v.len() && link_selects(#[trigger] v[i], key, target);
                lemma_link_parts_smaller(w, i);
                assert(w[i] == v[i]);
            }
            if link_selects(link_or(a, b), key, target) && !link_selects(b, key, target) {
                let i = choose|i: int| 0 <= i < w.len() && link_selects(#[trigger] w[i], key, target);
                assert(w[i] == v[i]);
                lemma_link_parts_smaller(v, i);
            }
        },
        _ => {
            let w = seq![a, b];
            lemma_link_parts_smaller(w, 0);
            lemma_link_parts_smaller(w, 1);
        },
    }
}

/// A link selector that answers the same whatever it is asked gives that answer about
/// any link.
pub proof fn lemma_link_as_bool(s: LinkSelectorView, key: Option<Seq<ValueView>>, target: Seq<ValueView>)
    ensures
        link_as_bool(s) matches Some(b) ==> link_selects(s, key, target) == b,
{
}

/// Where both parts are decided about `values`, so is `a.and(b)`.
pub proof fn lemma_data_and_decided(a: DataSelectorView, b: DataSelectorView, values: Seq<ValueView>)
    requires
        !data_undecided(a, values),
        !data_undecided(b, values),
    ensures
        !data_undecided(data_and(a, b), values),
{
    let w = match a {
        DataSelectorView::And(v) => v.push(b),
        _ => seq![a, b],
    };
    assert(data_and(a, b) == DataSelectorView::And(w));
    if data_undecided(data_and(a, b), values) {
        let i = choose|i: int|
            0 <= i < w.len() && data_undecided(#[trigger] w[i], values) && forall|j: int|
                0 <= j < i ==> data_selects(#[trigger] w[j], values);
        match a {
            DataSelectorView::And(v) => {
                if i < v.len() {
                    assert(w[i] == v[i]);
                    assert forall|j: int| 0 <= j < i implies data_selects(#[trigger] v[j], values) by {
                        assert(w[j] == v[j]);
                    }
                    assert(data_undecided(a, values));
                } else {
                    assert(w[i] == b);
                }
            },
            _ => {
                if i == 0 {
                    assert(w[0] == a);
                } else {
                    assert(w[1] == b);
                }
            },
        }
    }
}

/// Where both parts are decided about `values`, so is `a.or(b)`.
pub proof fn lemma_data_or_decided(a: DataSelectorView, b: DataSelectorView, values: Seq<ValueView>)
    requires
        !data_undecided(a, values),
        !data_undecided(b, values),
    ensures
        !data_undecided(data_or(a, b), values),
{
    let w = match a {
        DataSelectorView::Or(v) => v.push(b),
        _ => seq![a, b],
    };
    assert(data_or(a, b) == DataSelectorView::Or(w));
    if data_undecided(data_or(a, b), values) {
        let i = choose|i: int|
            0 <= i < w.len() && data_undecided(#[trigger] w[i], values) && forall|j: int|
                0 <= j < i ==> !data_selects(#[trigger] w[j], values);
        match a {
            DataSelectorView::Or(v) => {
                if i < v.len() {
                    assert(w[i] == v[i]);
                    assert forall|j: int| 0 <= j < i implies !data_selects(#[trigger] v[j], values) by {
                        assert(w[j] == v[j]);
                    }
                    assert(data_undecided(a, values));
                } else {
                    assert(w[i] == b);
                }
            },
            _ => {
                if i == 0 {
                    assert(w[0] == a);
                } else {
                    assert(w[1] == b);
                }
            },
        }
    }
}

/// Where both parts are decided about a link, so is `a.and(b)`.
pub proof fn lemma_link_and_decided(
    a: LinkSelectorView,
    b: LinkSelectorView,
    key: Option<Seq<ValueView>>,
    target: Seq<ValueView>,
)
    requires
        !link_undecided(a, key, target),
        !link_undecided(b, key, target),
    ensures
        !link_undecided(link_and(a, b), key, target),
{
    let w = match a {
        LinkSelectorView::And(v) => v.push(b),
        _ => seq![a, b],
    };
    assert(link_and(a, b) == LinkSelectorView::And(w));
    if link_undecided(link_and(a, b), key, target) {
        let i = choose|i: int|
            0 <= i < w.len() && link_undecided(#[trigger] w[i], key, target) && forall|j: int|
                0 <= j < i ==> link_selects(#[trigger] w[j], key, target);
        match a {
            LinkSelectorView::And(v) => {
                if i < v.len() {
                    assert(w[i] == v[i]);
                    assert forall|j: int| 0 <= j < i implies link_selects(#[trigger] v[j], key, target) by {
                        assert(w[j] == v[j]);
                    }
                    assert(link_undecided(a, key, target));
                } else {
                    assert(w[i] == b);
                }
            },
            _ => {
                if i == 0 {
                    assert(w[0] == a);
                } else {
                    assert(w[1] == b);
                }
            },
        }
    }
}

/// Where both parts are decided about a link, so is `a.or(b)`.
pub proof fn lemma_link_or_decided(
    a: LinkSelectorView,
    b: LinkSelectorView,
    key: Option<Seq<ValueView>>,
    target: Seq<ValueView>,
)
    requires
        !link_undecided(a, key, target),
        !link_undecided(b, key, target),
    ensures
        !link_undecided(link_or(a, b), key, target),
{
    let w = match a {
        LinkSelectorView::Or(v) => v.push(b),
        _ => seq![a, b],
    };
    assert(link_or(a, b) == LinkSelectorView::Or(w));
    if link_undecided(link_or(a, b), key, target) {
        let i = choose|i: int|
            0 <= i < w.len() && link_undecided(#[trigger] w[i], key, target) && forall|j: int|
                0 <= j < i ==> !link_selects(#[trigger] w[j], key, target);
        match a {
            LinkSelectorView::Or(v) => {
                if i < v.len() {
                    assert(w[i] == v[i]);
                    assert forall|j: int| 0 <= j < i implies !link_selects(#[trigger] v[j], key, target) by {
                        assert(w[j] == v[j]);
                    }
                    assert(link_undecided(a, key, target));
                } else {
                    assert(w[i] == b);
                }
            },
            _ => {
                if i == 0 {
                    assert(w[0] == a);
                } else {
                    assert(w[1] == b);
                }
            },
        }
    }
}

} // verus!
