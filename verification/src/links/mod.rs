//! Links: what data points to, each with an optional key, and collections of them.
use vstd::prelude::*;
use core::ops::ControlFlow;
use crate::data::Data;

pub mod impls;
pub mod filtered;

verus! {

/// Why a link could not be taken.
#[derive(Debug, Clone, PartialEq, Eq)]
pub enum LinkError {
    /// The collection cannot answer this kind of query.
    UnsupportedQuery,
    /// Another failure, with its message.
    Other(String),
}

impl LinkError {
    /// Another failure, with its message.
    pub fn other(message: String) -> (r: Self)
        ensures
            r == LinkError::Other(message),
    {
        LinkError::Other(message)
    }

    /// The message of the error.
    pub fn message(&self) -> (r: String)
        ensures
            self is UnsupportedQuery ==> r@ == "Unsupported query"@,
            self matches LinkError::Other(m) ==> r@ == m@,
    {
        match self {
            LinkError::UnsupportedQuery => {
                proof {
                    reveal_strlit("Unsupported query");
                }
                "Unsupported query".to_owned()
            },
            LinkError::Other(m) => m.clone(),
        }
    }
}

/// What taking a link answers: go on, stop, or a failure.
pub type LinkResult = Result<ControlFlow<()>, LinkError>;

/// The answer that asks for more links.
pub open spec fn spec_continue() -> LinkResult {
    Ok(ControlFlow::Continue(()))
}

/// The answer that asks for no more links.
pub open spec fn spec_break() -> LinkResult {
    Ok(ControlFlow::Break(()))
}

/// Asks for more links.
pub fn continue_links() -> (r: LinkResult)
    ensures
        r == spec_continue(),
{
    Ok(ControlFlow::Continue(()))
}

/// Asks for no more links.
pub fn break_links() -> (r: LinkResult)
    ensures
        r == spec_break(),
{
    Ok(ControlFlow::Break(()))
}

/// A collection that takes links whose key and target are of type `D`.
///
/// Contracts see the collection through a model of type `M`: what it holds.
pub trait Links<D, M = ()> {
    /// What the collection holds.
    spec fn spec_model(&self) -> M;

    /// What the collection holds after it takes a link to `target` with `key`.
    spec fn spec_model_after(&self, target: D, key: Option<D>) -> M;

    /// What the collection answers when it takes a link to `target` with `key`.
    spec fn spec_answer(&self, target: D, key: Option<D>) -> LinkResult;

    /// Whether the collection takes the link without an undecided condition on the way.
    spec fn spec_can_push(&self, target: D, key: Option<D>) -> bool;

    /// Takes a link to `target`, with `key` if it has one.
    fn push(&mut self, target: D, key: Option<D>) -> (r: LinkResult)
        requires
            old(self).spec_can_push(target, key),
        ensures
            final(self).spec_model() == old(self).spec_model_after(target, key),
            r == old(self).spec_answer(target, key),
    ;

    /// Takes a link to `target` under `key`.
    fn push_keyed(&mut self, target: D, key: D) -> (r: LinkResult)
        requires
            old(self).spec_can_push(target, Some(key)),
        ensures
            final(self).spec_model() == old(self).spec_model_after(target, Some(key)),
            r == old(self).spec_answer(target, Some(key)),
    {
        self.push(target, Some(key))
    }

    /// Takes a link to `target` without a key.
    fn push_unkeyed(&mut self, target: D) -> (r: LinkResult)
        requires
            old(self).spec_can_push(target, None),
        ensures
            final(self).spec_model() == old(self).spec_model_after(target, None),
            r == old(self).spec_answer(target, None),
    {
        self.push(target, None)
    }
}

/// A link: a target and, maybe, a key.
pub trait Link {
    type Key: Data;
    type Target: Data;

    /// The key, if the link has one.
    spec fn spec_key(&self) -> Option<Self::Key>;

    /// The target.
    spec fn spec_target(&self) -> Self::Target;

    /// The key, if the link has one.
    fn key(&self) -> (r: Option<&Self::Key>)
        ensures
            match r {
                Some(k) => self.spec_key() == Some(*k),
                None => self.spec_key() is None,
            },
    ;

    /// The target.
    fn target(&self) -> (r: &Self::Target)
        ensures
            *r == self.spec_target(),
    ;

    /// The key and the target, taken apart.
    fn into_parts(self) -> (r: (Option<Self::Key>, Self::Target))
        where Self: Sized
        ensures
            r == (self.spec_key(), self.spec_target()),
    ;
}

/// A link with or without a key.
#[derive(Debug)]
pub enum MaybeKeyed<K, T> {
    Keyed(K, T),
    Unkeyed(T),
}

/// The link that `MaybeKeyed::new` builds.
pub open spec fn maybe_keyed<K, T>(key: Option<K>, target: T) -> MaybeKeyed<K, T> {
    match key {
        Some(k) => MaybeKeyed::Keyed(k, target),
        None => MaybeKeyed::Unkeyed(target),
    }
}

impl<K, T> MaybeKeyed<K, T> {
    /// A link to `target`, keyed when there is a key.
    pub fn new(key: Option<K>, target: T) -> (r: Self)
        ensures
            r == maybe_keyed(key, target),
    {
        match key {
            Some(key) => MaybeKeyed::Keyed(key, target),
            None => MaybeKeyed::Unkeyed(target),
        }
    }
}

impl<K: Data, T: Data> Link for MaybeKeyed<K, T> {
    type Key = K;
    type Target = T;

    open spec fn spec_key(&self) -> Option<K> {
        match self {
            MaybeKeyed::Keyed(k, _) => Some(*k),
            MaybeKeyed::Unkeyed(_) => None,
        }
    }

    open spec fn spec_target(&self) -> T {
        match self {
            MaybeKeyed::Keyed(_, t) => *t,
            MaybeKeyed::Unkeyed(t) => *t,
        }
    }

    fn key(&self) -> (r: Option<&K>) {
        match self {
            MaybeKeyed::Keyed(k, _) => Some(k),
            MaybeKeyed::Unkeyed(_) => None,
        }
    }

    fn target(&self) -> (r: &T) {
        match self {
            MaybeKeyed::Keyed(_, t) => t,
            MaybeKeyed::Unkeyed(t) => t,
        }
    }

    fn into_parts(self) -> (r: (Option<K>, T)) {
        match self {
            MaybeKeyed::Keyed(k, t) => (Some(k), t),
            MaybeKeyed::Unkeyed(t) => (None, t),
        }
    }
}

/// A link built from a key and a target gives back that key and that target.
pub proof fn lemma_maybe_keyed_parts<K: Data, T: Data>(key: Option<K>, target: T)
    ensures
        maybe_keyed(key, target).spec_key() == key,
        maybe_keyed(key, target).spec_target() == target,
{
}

impl<K: Data, T: Data> Link for (K, T) {
    type Key = K;
    type Target = T;

    open spec fn spec_key(&self) -> Option<K> {
        Some(self.0)
    }

    open spec fn spec_target(&self) -> T {
        self.1
    }

    fn key(&self) -> (r: Option<&K>) {
        Some(&self.0)
    }

    fn target(&self) -> (r: &T) {
        &self.1
    }

    fn into_parts(self) -> (r: (Option<K>, T)) {
        (Some(self.0), self.1)
    }
}

/// Ways to hand links to a collection.
/// Whether an answer asks for more links.
pub fn asks_for_more(answer: &LinkResult) -> (r: bool)
    ensures
        r == (*answer == spec_continue()),
{
    match answer {
        Ok(ControlFlow::Continue(c)) => {
            assert(*answer == Ok::<ControlFlow<()>, LinkError>(ControlFlow::Continue(*c)));
            assert(*c == ());
            true
        },
        _ => false,
    }
}

/// The key and the target of each link.
pub open spec fn parts_of<L: Link>(links: Seq<L>) -> Seq<(Option<L::Key>, L::Target)> {
    links.map_values(|l: L| (l.spec_key(), l.spec_target()))
}

/// State `i + 1` holds what state `i` holds after taking link `i`.
pub open spec fn run_step<D, M, C: Links<D, M>>(states: Seq<C>, parts: Seq<(Option<D>, D)>, i: int) -> bool {
    states[i + 1].spec_model() == states[i].spec_model_after(parts[i].1, parts[i].0)
}

/// What state `i` answers to link `i`.
pub open spec fn run_answer_at<D, M, C: Links<D, M>>(states: Seq<C>, parts: Seq<(Option<D>, D)>, i: int) -> LinkResult {
    states[i].spec_answer(parts[i].1, parts[i].0)
}

/// `states` holds the collection before and after taking each of `parts` in order, and
/// each link but the last was answered with a request for more.
pub open spec fn is_run<D, M, C: Links<D, M>>(states: Seq<C>, parts: Seq<(Option<D>, D)>) -> bool {
    &&& states.len() == parts.len() + 1
    &&& forall|i: int| 0 <= i < parts.len() ==> #[trigger] run_step(states, parts, i)
    &&& forall|i: int| 0 <= i < parts.len() - 1 ==> #[trigger] run_answer_at(states, parts, i) == spec_continue()
}

/// What a run answers: the answer to its last link, or a request for more when it took none.
pub open spec fn run_answer<D, M, C: Links<D, M>>(states: Seq<C>, parts: Seq<(Option<D>, D)>) -> LinkResult {
    if parts.len() == 0 {
        spec_continue()
    } else {
        run_answer_at(states, parts, parts.len() - 1)
    }
}

pub trait LinksExt<D, M>: Links<D, M> + Sized {
    /// Takes `link`, with its key if it has one.
    fn push_link<L: Link<Key = D, Target = D>>(&mut self, link: L) -> (r: LinkResult)
        requires
            old(self).spec_can_push(link.spec_target(), link.spec_key()),
        ensures
            final(self).spec_model() == old(self).spec_model_after(link.spec_target(), link.spec_key()),
            r == old(self).spec_answer(link.spec_target(), link.spec_key()),
    {
        let (key, target) = link.into_parts();
        self.push(target, key)
    }

    /// Takes `links` in order until one is answered with a failure or a request to stop,
    /// and gives that answer; a request for more when every link asked for more.
    fn extend<L: Link<Key = D, Target = D>>(&mut self, links: Vec<L>) -> (r: LinkResult)
        requires
            forall|s: Self, i: int| 0 <= i < links@.len() ==> #[trigger] s.spec_can_push(
                parts_of(links@)[i].1,
                parts_of(links@)[i].0,
            ),
        ensures
            exists|states: Seq<Self>, n: int|
                #![trigger is_run(states, parts_of(links@).take(n))]
                {
                    &&& 0 <= n <= links@.len()
                    &&& is_run(states, parts_of(links@).take(n))
                    &&& states[0] == *old(self)
                    &&& states[n] == *final(self)
                    &&& n < links@.len() ==> n > 0 && run_answer_at(states, parts_of(links@), n - 1) != spec_continue()
                    &&& r == run_answer(states, parts_of(links@).take(n))
                },
    {
        let ghost parts = parts_of(links@);
        let ghost start = *self;
        let ghost mut states: Seq<Self> = seq![*self];
        let mut pending = links;
        let total = pending.len();
        let mut i: usize = 0;
        proof {
            assert(parts.take(0) =~= Seq::<(Option<D>, D)>::empty());
            assert(pending@.skip(0) =~= pending@);
        }
        while pending.len() > 0
            invariant
                parts == parts_of(links@),
                start == *old(self),
                total == parts.len(),
                i <= total,
                i + pending@.len() == total,
                parts_of(pending@) =~= parts.skip(i as int),
                forall|s: Self, j: int| 0 <= j < total ==> #[trigger] s.spec_can_push(parts[j].1, parts[j].0),
                states.len() == i + 1,
                states[0] == start,
                states[i as int] == *self,
                is_run(states, parts.take(i as int)),
                i > 0 ==> run_answer_at(states, parts, i - 1) == spec_continue(),
            decreases pending.len(),
        {
            let ghost before = *self;
            let ghost rest = pending@;
            let link = pending.remove(0);
            proof {
                assert(parts_of(rest)[0] == parts[i as int]);
                assert(pending@ =~= rest.remove(0));
                assert forall|j: int| 0 <= j < pending@.len() implies #[trigger] parts_of(pending@)[j] == parts.skip(i + 1)[j] by {
                    assert(pending@[j] == rest[j + 1]);
                    assert(parts_of(rest)[j + 1] == parts.skip(i as int)[j + 1]);
                }
                assert(parts_of(pending@) =~= parts.skip(i + 1));
            }
            let (key, target) = link.into_parts();
            let a = self.push(target, key);
            proof {
                let prev = states;
                states = states.push(*self);
                let p = parts.take(i + 1);
                assert(p.len() == i + 1);
                assert forall|j: int| 0 <= j < p.len() implies #[trigger] run_step(states, p, j) by {
                    assert(p[j] == parts[j]);
                    if j < i {
                        assert(run_step(prev, parts.take(i as int), j));
                        assert(parts.take(i as int)[j] == parts[j]);
                    }
                }
                assert forall|j: int| 0 <= j < p.len() - 1 implies #[trigger] run_answer_at(states, p, j) == spec_continue() by {
                    assert(p[j] == parts[j]);
                    assert(parts.take(i as int)[j] == parts[j]);
                    if j < i - 1 {
                        assert(run_answer_at(prev, parts.take(i as int), j) == spec_continue());
                    } else {
                        assert(run_answer_at(prev, parts, j) == spec_continue());
                    }
                }
                assert(run_answer_at(states, parts, i as int) == a);
                assert(run_answer_at(states, p, i as int) == a);
            }
            i = i + 1;
            if !asks_for_more(&a) {
                {
                    proof {
                        assert(run_answer(states, parts.take(i as int)) == a);
                        assert(run_answer_at(states, parts, i - 1) == a);
                        assert(a != spec_continue());
                        assert(states[i as int] == *self);
                        assert(is_run(states, parts.take(i as int)));
                    }
                    return a;
                }
            }
        }
        proof {
            assert(parts.take(i as int) =~= parts);
        }
        continue_links()
    }


    /// A collection that passes on to this one only the links that `selector` selects.
    fn filter<'s>(self, selector: &'s crate::query::selectors::LinkSelector) -> (r: filtered::Filtered<'s, Self>)
        ensures
            r.spec_selector() == *selector,
            r.spec_inner() == self,
    {
        filtered::Filtered::new(selector, self)
    }
}

impl<D, M, T: Links<D, M>> LinksExt<D, M> for T {
}

} // verus!
