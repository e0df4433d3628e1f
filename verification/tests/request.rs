use datalink::data::{Data, VisitorExt};
use datalink::rr::erased::Erased;
use datalink::rr::typeset::TypeSet;

#[test]
fn request_providable() {
    let mut rec = Option::<u8>::None;
    42u8.query(&mut rec);
    assert_eq!(rec, Some(42));

    let mut rec = Option::<u8>::None;
    let r = &42u8;
    r.query(&mut rec);
    assert_eq!(rec, Some(42));

    let mut rec = Option::<String>::None;
    "Hello world".query(&mut rec);
    assert_eq!(rec.unwrap(), "Hello world");

    let mut rec = Option::<String>::None;
    let s = String::from("Hello world");
    s.query(&mut rec);
    assert_eq!(rec.unwrap(), "Hello world");
}

#[test]
fn visitors_take_whole_data() {
    let mut rec = Option::<u8>::None;
    rec.visit_data(7u8);
    assert_eq!(rec, Some(7));
    rec.visit_ref("not a number");
    assert_eq!(rec, Some(7));
    rec.visit_ref(&vec![1u8, 2, 3][..]);
    assert_eq!(rec, Some(7));
    let mut text = Option::<String>::None;
    text.visit_ref("abc");
    assert_eq!(text.as_deref(), Some("abc"));
}

#[test]
fn erased_receivers_tell_what_they_take() {
    let erased = Erased::get_receiver(Option::<bool>::None);
    let set = Erased::get_requesting(&erased);
    assert!(set.contains_type::<bool>());
    assert!(!set.contains_type::<u8>());
    assert!(set.contains_type_of(&true));
}

#[test]
fn mod_providable() {
    let mut req = Option::<u8>::None;
    42u8.query(&mut req);
    assert_eq!(req, Some(42));

    let mut req = Option::<u8>::None;
    let r = &42u8;
    r.query(&mut req);
    assert_eq!(req, Some(42));

    let mut req = Option::<String>::None;
    "Hello world".query(&mut req);
    assert_eq!(req.unwrap(), "Hello world");
}
