use datalink::data::unique::Fixed;
use datalink::id::ID;
use datalink::links::MaybeKeyed;
use datalink::query::selectors::{DataSelector, LinkSelector, Selector, TextSelector};

fn id(n: u128) -> ID {
    ID::try_new(n).unwrap()
}

#[test]
fn data_selectors_select() {
    assert!(DataSelector::any().selects(&1u8));
    assert!(!DataSelector::none().selects(&1u8));
    let t = DataSelector::text(TextSelector::from("a"));
    assert!(t.selects(&"a"));
    assert!(!t.selects(&"b"));
    assert!(!t.selects(&1u8));
    assert!(DataSelector::unique().selects(&id(1)));
    assert!(!DataSelector::unique().selects(&1u8));
    assert!(DataSelector::id(id(2)).selects(&id(2)));
    assert!(!DataSelector::id(id(2)).selects(&id(3)));
    assert!(DataSelector::not_id(id(2)).selects(&id(3)));
    assert!(DataSelector::not_id(id(2)).selects(&1u8));
    let f = Fixed::new(1u8, id(4));
    assert!(DataSelector::eq(&f).selects(&id(4)));
    assert!(DataSelector::ne(&f).selects(&id(5)));
}

#[test]
fn data_selectors_combine() {
    let a = DataSelector::text(TextSelector::from("a"));
    let both = a.and(DataSelector::unique());
    assert!(!both.selects(&"a"));
    let either = DataSelector::text(TextSelector::from("a")).or(DataSelector::unique());
    assert!(either.selects(&"a"));
    assert!(either.selects(&id(1)));
    assert!(!either.selects(&"b"));
    let three = DataSelector::any().and(DataSelector::any()).and(DataSelector::none());
    assert!(matches!(&three, DataSelector::And(v) if v.len() == 3));
    assert!(!three.selects(&1u8));
    let not = DataSelector::none().not();
    assert!(not.selects(&1u8));
    assert_eq!(Selector::<u8>::as_bool(&DataSelector::any()), Some(true));
    assert_eq!(Selector::<u8>::as_bool(&DataSelector::none()), Some(false));
    assert_eq!(Selector::<u8>::as_bool(&DataSelector::unique()), None);
}

#[test]
fn optimizing_data_selectors() {
    let mut s = DataSelector::any().and(DataSelector::none());
    Selector::<u8>::optimize(&mut s);
    assert!(matches!(s, DataSelector::Nothing));

    let mut s = DataSelector::any().and(DataSelector::any());
    Selector::<u8>::optimize(&mut s);
    assert!(matches!(s, DataSelector::Any));

    let mut s = DataSelector::any()
        .and(DataSelector::unique())
        .and(DataSelector::text(TextSelector::from("x")));
    Selector::<u8>::optimize(&mut s);
    assert!(matches!(&s, DataSelector::And(v) if v.len() == 2));
    assert!(!s.selects(&id(1)));

    let mut s = DataSelector::none().or(DataSelector::unique());
    Selector::<u8>::optimize(&mut s);
    assert!(matches!(&s, DataSelector::Or(v) if v.len() == 1));

    let mut s = DataSelector::unique().or(DataSelector::any());
    Selector::<u8>::optimize(&mut s);
    assert!(matches!(s, DataSelector::Any));

    let mut s = DataSelector::none().or(DataSelector::none());
    Selector::<u8>::optimize(&mut s);
    assert!(matches!(s, DataSelector::Any));
}

#[test]
fn link_selectors_select() {
    let keyed = MaybeKeyed::new(Some("name"), "Alice");
    let unkeyed = MaybeKeyed::<&str, &str>::new(None, "Bob");
    let k = LinkSelector::key(DataSelector::text(TextSelector::from("name")));
    assert!(k.selects(&keyed));
    assert!(!k.selects(&unkeyed));
    let t = LinkSelector::target(DataSelector::text(TextSelector::from("Bob")));
    assert!(t.selects(&unkeyed));
    assert!(!t.selects(&keyed));
    let either = LinkSelector::key(DataSelector::any()).or(LinkSelector::target(DataSelector::any()));
    assert!(either.selects(&unkeyed));
    let both = LinkSelector::any().and(LinkSelector::none());
    assert!(!both.selects(&keyed));
    assert!(LinkSelector::none().not().selects(&keyed));

    let mut s = LinkSelector::any().and(LinkSelector::key(DataSelector::any()));
    Selector::<MaybeKeyed<&str, &str>>::optimize(&mut s);
    assert!(matches!(&s, LinkSelector::And(v) if v.len() == 1));
    assert_eq!(Selector::<MaybeKeyed<&str, &str>>::as_bool(&LinkSelector::any()), Some(true));
}

#[test]
fn text_selectors_compare_text() {
    let t = TextSelector::from("abc".to_string());
    assert!(t.selects("abc"));
    assert!(!t.selects("ab"));
    assert!(t.selects(&"abc".to_string()));
}

#[test]
fn combined_selectors_select_by_their_parts() {
    let a = DataSelector::text(TextSelector::from("x"));
    let b = DataSelector::Any;
    let both = DataSelector::text(TextSelector::from("x")).and(DataSelector::Any);
    let either = DataSelector::text(TextSelector::from("y")).or(DataSelector::Nothing);
    assert_eq!(Selector::<str>::selects(&both, "x"), Selector::<str>::selects(&a, "x") && Selector::<str>::selects(&b, "x"));
    assert!(!Selector::<str>::selects(&both, "z"));
    assert!(Selector::<str>::selects(&either, "y"));
    assert!(!Selector::<str>::selects(&either, "x"));
}
