use datalink::rr::typeset::{All, And, BytesLike, Not, Only, Or, StringLike, TypeSet};

#[test]
fn typeset_test_only() {
    let set = Only::<u8>::default();
    assert!(set.contains_type::<u8>());
    assert!(!set.contains_type::<u16>());
}

#[test]
fn typeset_stringlike() {
    let set = StringLike::default();
    assert!(set.contains_type::<String>());
    assert!(set.contains_type::<&str>());
    assert!(!set.contains_type::<u8>());
}

#[test]
fn typeset_byteslike() {
    let set = BytesLike::default();
    assert!(set.contains_type::<Vec<u8>>());
    assert!(set.contains_type::<&[u8]>());
    assert!(!set.contains_type::<u8>());
}

#[test]
fn typeset_combinations() {
    let both = And(StringLike::default(), Only::<String>::default());
    assert!(both.contains_type::<String>());
    assert!(!both.contains_type::<&str>());

    let either = Or(Only::<u8>::default(), Only::<u16>::default());
    assert!(either.contains_type::<u8>());
    assert!(either.contains_type::<u16>());
    assert!(!either.contains_type::<u32>());

    let not = Not(Only::<u8>::default());
    assert!(!not.contains_type::<u8>());
    assert!(not.contains_type::<u16>());

    assert!(All.contains_type::<u128>());
    assert!(Only::<u8>::default().contains_type_of(&7u8));
}
