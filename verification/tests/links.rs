use core::ops::ControlFlow;
use datalink::data::ext::DataExt;
use datalink::data::{values_of, ValueList};
use datalink::id::ID;
use datalink::link::builder::LinkBuilder as Builder;
use datalink::link::{NoKey, Nothing, Optional, Unkeyed};
use datalink::link_builder::{LinkBuilder, LinkBuilderError};
use datalink::links::filtered::Filtered;
use datalink::links::impls::Linked;
use datalink::links::{
    break_links, continue_links, Link, LinkError, Links, LinksExt, MaybeKeyed,
};
use datalink::query::selectors::{DataSelector, LinkSelector, TextSelector};

#[test]
fn link_builder_object_safety() {
    fn _f(_l: &dyn LinkBuilder<u32>) {}
}

#[test]
fn links_object_safety() {
    fn _f(_l: &dyn Links<u32>) {}
}

#[test]
fn vec_of_targets_keeps_every_target() {
    let mut links: Vec<u32> = Vec::new();
    assert_eq!(links.push_unkeyed(42), Ok(ControlFlow::Continue(())));
    assert_eq!(links.push_keyed(7, 1), Ok(ControlFlow::Continue(())));
    assert_eq!(links, vec![42, 7]);
}

#[test]
fn vec_of_pairs_drops_unkeyed_links() {
    let mut links: Vec<(u32, u32)> = Vec::new();
    links.push_keyed(42u32, 3u32).unwrap();
    links.push_unkeyed(5).unwrap();
    assert_eq!(links, vec![(3, 42)]);
}

#[test]
fn vec_of_optional_pairs_keeps_keys() {
    let mut links: Vec<(Option<u8>, u8)> = Vec::new();
    Links::push(&mut links, 1, None).unwrap();
    Links::push(&mut links, 2, Some(9)).unwrap();
    assert_eq!(links, vec![(None, 1), (Some(9), 2)]);
}

#[test]
fn maybe_keyed_vec_records_both_kinds() {
    let mut links: Vec<MaybeKeyed<u8, u8>> = Vec::new();
    Links::push(&mut links, 1, None).unwrap();
    Links::push(&mut links, 2, Some(3)).unwrap();
    assert!(matches!(links[0], MaybeKeyed::Unkeyed(1)));
    assert!(matches!(links[1], MaybeKeyed::Keyed(3, 2)));
}

#[test]
fn option_keeps_the_first_link_and_stops() {
    let mut first: Option<u8> = None;
    assert_eq!(first.push_unkeyed(1), Ok(ControlFlow::Break(())));
    assert_eq!(first.push_unkeyed(2), Ok(ControlFlow::Break(())));
    assert_eq!(first, Some(1));

    let mut keyed: Option<(u8, u8)> = None;
    keyed.push_unkeyed(1).unwrap();
    assert_eq!(keyed, None);
    keyed.push_keyed(2, 3).unwrap();
    keyed.push_keyed(4, 5).unwrap();
    assert_eq!(keyed, Some((3, 2)));

    let mut any: Option<(Option<u8>, u8)> = None;
    any.push_unkeyed(1).unwrap();
    any.push_keyed(2, 3).unwrap();
    assert_eq!(any, Some((None, 1)));
}

#[test]
fn linked_records_a_link_and_stops() {
    let mut l = Linked::default();
    assert_eq!(l, Linked::No);
    assert_eq!(Links::<u8, Linked>::push_unkeyed(&mut l, 1), Ok(ControlFlow::Break(())));
    assert_eq!(l, Linked::Yes);
}

#[test]
fn link_results_and_errors() {
    assert_eq!(continue_links(), Ok(ControlFlow::Continue(())));
    assert_eq!(break_links(), Ok(ControlFlow::Break(())));
    assert_eq!(LinkError::UnsupportedQuery.message(), "Unsupported query");
    let e = LinkError::other("broken".to_string());
    assert_eq!(e, LinkError::Other("broken".to_string()));
    assert_eq!(e.message(), "broken");
    assert_eq!(LinkBuilderError::MissingTarget.message(), "Missing target");
    assert_eq!(LinkBuilderError::AlreadyEnded.message(), "Already ended");
    assert_eq!(LinkBuilderError::UnsupportedQuery.message(), "Unsupported query");
    assert_eq!(LinkBuilderError::other("x".to_string()).message(), "x");
}

#[test]
fn filtered_passes_only_selected_links() {
    let selector = LinkSelector::key(DataSelector::text(TextSelector::from("name")));
    let inner: Vec<(Option<String>, String)> = Vec::new();
    let mut f = Filtered::new(&selector, inner);
    assert_eq!(
        Links::push(&mut f, "Alice".to_string(), Some("name".to_string())),
        Ok(ControlFlow::Continue(()))
    );
    assert_eq!(
        Links::push(&mut f, "30".to_string(), Some("age".to_string())),
        Ok(ControlFlow::Continue(()))
    );
    Links::push(&mut f, "x".to_string(), None).unwrap();
    let kept = f.into_inner();
    assert_eq!(kept, vec![(Some("name".to_string()), "Alice".to_string())]);

    let all = LinkSelector::any();
    let mut g = Vec::<u8>::new().filter(&all);
    g.push_unkeyed(1).unwrap();
    assert_eq!(g.into_inner(), vec![1]);
}

#[test]
fn links_and_parts() {
    let l = MaybeKeyed::new(Some(1u8), 2u8);
    assert_eq!(l.key(), Some(&1));
    assert_eq!(*l.target(), 2);
    assert_eq!(l.into_parts(), (Some(1), 2));
    let u = Unkeyed(5u8);
    assert_eq!(u.key(), None);
    assert_eq!(u.into_parts(), (None, 5));
    let pair = (1u8, 2u8);
    assert_eq!(Link::key(&pair), Some(&1));
}

#[test]
fn link_builder_sets_parts() {
    let b = Builder::new(1u8);
    assert_eq!(*Link::target(&b), 1);
    let b = b.key(2u8).target(3u8);
    assert_eq!(b.into_parts(), (Some(2), 3));
    let b = Builder::new_ownable(4u8).key_ownable(5u8).target_with(6u8).key_with(7u8);
    assert_eq!(b.into_parts(), (Some(7), 6));
    let b = Builder::new_with(8u8).target_ownable(9u8);
    assert!(matches!(Link::key(&b), Some(NoKey)));
}

#[test]
fn optional_parts() {
    let o: Optional<u8> = Optional::from(Some(1u8));
    assert_eq!(o, Optional::Present(1));
    let n: Optional<u8> = Optional::from(None);
    assert_eq!(n, Optional::Absent(Nothing));
    assert_eq!(Option::<u8>::from(o), Some(1));
    assert_eq!(Option::<u8>::from(n), None);
    assert!(matches!(Optional::always(3u8), Optional::Present(3)));
    assert!(matches!(Optional::never(), Optional::Absent(Nothing)));
    let _ = ID::try_new(1).unwrap();
}

#[test]
fn links_taken_one_by_one_and_in_runs() {
    let mut targets: Vec<u8> = Vec::new();
    assert_eq!(targets.push_link(MaybeKeyed::new(Some(1u8), 2u8)), Ok(ControlFlow::Continue(())));
    assert_eq!(
        LinksExt::extend(&mut targets, vec![MaybeKeyed::new(None, 3u8), MaybeKeyed::new(Some(4), 5)]),
        Ok(ControlFlow::Continue(()))
    );
    assert_eq!(targets, vec![2, 3, 5]);

    let mut first: Option<(u8, u8)> = None;
    assert_eq!(
        LinksExt::extend(&mut first, vec![(1u8, 2u8), (3, 4)]),
        Ok(ControlFlow::Break(()))
    );
    assert_eq!(first, Some((1, 2)));

    let mut none: Vec<(Option<u8>, u8)> = Vec::new();
    let empty: Vec<(u8, u8)> = Vec::new();
    assert_eq!(LinksExt::extend(&mut none, empty), Ok(ControlFlow::Continue(())));
    assert!(none.is_empty());
}

#[test]
fn target_only() {
    let mut links: Vec<ValueList> = Vec::new();

    let target = 42u32;
    links.push_link(Unkeyed(values_of(&target))).unwrap();
    assert_eq!(links.len(), 1);
    assert_eq!(links[0].as_u32(), Some(42));
}

#[test]
fn target_and_key() {
    let mut links: Vec<(ValueList, ValueList)> = Vec::new();

    let target = 42u32;
    let key = "foo";
    links.push_link((values_of(&key), values_of(&target))).unwrap();
    assert_eq!(links.len(), 1);
    assert_eq!(links[0].0.as_string(), Some("foo".to_string()));
    assert_eq!(links[0].1.as_u32(), Some(42));
}

#[test]
fn ref_target() {
    let mut links: Vec<ValueList> = Vec::new();

    let target = &42u32;
    links.push_link(Unkeyed(values_of(&target))).unwrap();
    assert_eq!(links[0].as_u32(), Some(42));
}

#[test]
fn option_target() {
    let mut links: Vec<ValueList> = Vec::new();

    let target = Some(42u32);
    links.push_link(Unkeyed(values_of(&target))).unwrap();
    assert_eq!(links[0].as_u32(), Some(42));
}
