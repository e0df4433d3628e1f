use datalink::id::{ParseIdError, ID};

#[test]
fn identifiers_from_numbers() {
    let i = ID::try_new(42).unwrap();
    assert_eq!(i.value(), 42);
    assert_eq!(ID::try_new(0), Err(ParseIdError::Zero));
    assert_eq!(ID::new_unchecked(7).value(), 7);
    assert_eq!(ID::from_draw(0), None);
    assert_eq!(ID::from_draw(9).unwrap().value(), 9);
    assert_ne!(ID::random().value(), 0);
    let raw: ID<u32> = ID::new(5u32);
    assert_eq!(raw.into_raw(), 5);
    assert_eq!(*ID::from_raw(6u8).as_raw(), 6);
}

#[test]
fn identifiers_as_text_and_back() {
    let i = ID::try_new(1234567890123456789).unwrap();
    assert_eq!(i.to_text(), "1234567890123456789");
    assert_eq!(ID::from_str(&i.to_text()), Ok(i));
    assert_eq!(ID::from_str("+12").unwrap().value(), 12);
    assert_eq!(ID::from_str(""), Err(ParseIdError::Empty));
    assert_eq!(ID::from_str("0"), Err(ParseIdError::Zero));
    assert_eq!(ID::from_str("1x"), Err(ParseIdError::InvalidDigit));
    assert_eq!(ID::from_str("+"), Err(ParseIdError::InvalidDigit));
    assert_eq!(ID::from_str(&format!("{}0", u128::MAX)), Err(ParseIdError::PosOverflow));
    assert_eq!(ID::from_str(&u128::MAX.to_string()).unwrap().value(), u128::MAX);
}

#[test]
fn identifiers_from_their_raw_value() {
    let id = ID::try_new(42).unwrap();
    let raw = id.into_raw();
    assert_eq!(ID::from_raw(raw), id);
    assert_eq!(*ID::from_raw(raw).as_raw(), raw);
}
