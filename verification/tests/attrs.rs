use datalink::attrs::{
    AttrError, AttrItem, Attrs, Field, FieldAttr, FieldQuery, LinkForm, Mode, ProvideForm,
};

fn item(path: &str) -> AttrItem {
    AttrItem { path: path.to_string(), value: None }
}

fn item_eq(path: &str, value: &str) -> AttrItem {
    AttrItem { path: path.to_string(), value: Some(value.to_string()) }
}

fn attrs(provide: Mode, link: Mode) -> Attrs {
    Attrs { provide, link }
}

#[test]
fn modes_by_name() {
    assert_eq!(Mode::parse("skip"), Ok(Mode::Skip));
    assert_eq!(Mode::parse("ref"), Err(AttrError::Keyword(33)));
    assert_eq!(
        AttrError::Keyword(33).message(),
        "expected identifier, found keyword `ref`"
    );
    assert!(matches!(Mode::parse("self"), Err(AttrError::Keyword(_))));
    assert_eq!(Mode::parse("clone"), Ok(Mode::Clone));
    assert_eq!(Mode::parse("to_owned"), Ok(Mode::ToOwned));
    assert_eq!(Mode::parse("copy"), Ok(Mode::Copy));
    assert_eq!(Mode::parse("auto"), Ok(Mode::Auto));
    assert_eq!(Mode::parse("Copy"), Err(AttrError::ExpectedMode));
    assert_eq!(
        AttrError::ExpectedMode.message(),
        "expected one of: skip, ref, clone, to_owned, copy"
    );
    assert_eq!(AttrError::Unsupported.message(), "unsupported attribute");
    assert_eq!(AttrError::ExpectedComma.message(), "expected `,`");
}

#[test]
fn attributes_from_items() {
    assert_eq!(Attrs::default(), attrs(Mode::Skip, Mode::Auto));
    assert_eq!(Attrs::from_attr(&[]), Ok(attrs(Mode::Skip, Mode::Auto)));
    assert_eq!(Attrs::from_attr(&[item("provide")]), Ok(attrs(Mode::Auto, Mode::Auto)));
    assert_eq!(
        Attrs::from_attr(&[item_eq("provide", "copy")]),
        Ok(attrs(Mode::Copy, Mode::Auto))
    );
    assert_eq!(Attrs::from_attr(&[item("skip")]), Ok(attrs(Mode::Skip, Mode::Skip)));
    assert_eq!(Attrs::from_attr(&[item("clone")]), Ok(attrs(Mode::Skip, Mode::Clone)));
    assert_eq!(
        Attrs::from_attr(&[item("provide"), item("clone")]),
        Ok(attrs(Mode::Clone, Mode::Clone))
    );
    assert_eq!(
        Attrs::from_attr(&[item("copy"), item("provide"), item("to_owned")]),
        Ok(attrs(Mode::ToOwned, Mode::ToOwned))
    );
    assert_eq!(
        Attrs::from_attr(&[item_eq("link", "ref"), item("copy"), item("provide")]),
        Err(AttrError::Keyword(33))
    );
    assert_eq!(
        Attrs::from_attr(&[item_eq("link", "clone"), item("copy"), item("provide")]),
        Ok(attrs(Mode::Copy, Mode::Clone))
    );
}

#[test]
fn refused_attributes() {
    assert_eq!(Attrs::from_attr(&[item_eq("link", "bogus")]), Err(AttrError::ExpectedMode));
    assert_eq!(Attrs::from_attr(&[item("provide"), item("bogus")]), Err(AttrError::Unsupported));
    assert_eq!(Attrs::from_attr(&[item_eq("copy", "x")]), Err(AttrError::ExpectedComma));
    assert_eq!(
        Attrs::from_attr(&[item("bogus"), item_eq("link", "bogus")]),
        Err(AttrError::Unsupported)
    );
}

#[test]
fn fields_take_their_first_data_attribute() {
    let none: Vec<FieldAttr> = vec![FieldAttr { path: "doc".to_string(), items: vec![] }];
    assert_eq!(
        Field::new(&none, true),
        Ok(Field { attrs: attrs(Mode::Skip, Mode::Auto), named: true })
    );
    let two = vec![
        FieldAttr { path: "doc".to_string(), items: vec![item("bogus")] },
        FieldAttr { path: "data".to_string(), items: vec![item("provide")] },
        FieldAttr { path: "data".to_string(), items: vec![item("bogus")] },
    ];
    assert_eq!(
        Field::new(&two, false),
        Ok(Field { attrs: attrs(Mode::Auto, Mode::Auto), named: false })
    );
    let bad = vec![FieldAttr { path: "data".to_string(), items: vec![item("bogus")] }];
    assert_eq!(Field::new(&bad, true), Err(AttrError::Unsupported));
}

#[test]
fn field_queries_by_reference() {
    let f = Field { attrs: attrs(Mode::Skip, Mode::Auto), named: true };
    assert_eq!(
        f.query_by_ref(),
        FieldQuery { link: Some(LinkForm::NewOwnable), keyed: true, provide: None }
    );
    let f = Field { attrs: attrs(Mode::Copy, Mode::Auto), named: false };
    assert_eq!(
        f.query_by_ref(),
        FieldQuery { link: Some(LinkForm::Direct), keyed: false, provide: Some(ProvideForm::Value) }
    );
    let f = Field { attrs: attrs(Mode::Auto, Mode::Copy), named: true };
    assert_eq!(
        f.query_by_ref(),
        FieldQuery { link: Some(LinkForm::New), keyed: true, provide: Some(ProvideForm::Value) }
    );
    let f = Field { attrs: attrs(Mode::Clone, Mode::Skip), named: true };
    assert_eq!(
        f.query_by_ref(),
        FieldQuery { link: None, keyed: false, provide: Some(ProvideForm::CloneValue) }
    );
    let f = Field { attrs: attrs(Mode::ToOwned, Mode::Ref), named: true };
    assert_eq!(
        f.query_by_ref(),
        FieldQuery {
            link: Some(LinkForm::NewOwnable),
            keyed: true,
            provide: Some(ProvideForm::ToOwnedValue)
        }
    );
}

#[test]
fn owned_field_queries() {
    let f = Field { attrs: attrs(Mode::Auto, Mode::Auto), named: true };
    assert_eq!(
        f.query_owned(),
        FieldQuery { link: Some(LinkForm::New), keyed: true, provide: Some(ProvideForm::Value) }
    );
    let f = Field { attrs: attrs(Mode::Ref, Mode::Ref), named: false };
    assert_eq!(
        f.query_owned(),
        FieldQuery {
            link: Some(LinkForm::NewOwnable),
            keyed: false,
            provide: Some(ProvideForm::Value)
        }
    );
    let f = Field { attrs: attrs(Mode::Copy, Mode::Clone), named: true };
    assert_eq!(
        f.query_owned(),
        FieldQuery { link: Some(LinkForm::New), keyed: true, provide: Some(ProvideForm::Value) }
    );
    let f = Field { attrs: attrs(Mode::Skip, Mode::Skip), named: true };
    assert_eq!(f.query_owned(), FieldQuery { link: None, keyed: false, provide: None });
}

#[test]
fn both_queries_take_the_same_parts() {
    let modes = [Mode::Skip, Mode::Auto, Mode::Ref, Mode::Clone, Mode::ToOwned, Mode::Copy];
    for provide in modes {
        for link in modes {
            for named in [false, true] {
                let f = Field { attrs: attrs(provide, link), named };
                let a = f.query_by_ref();
                let b = f.query_owned();
                assert_eq!(a.link.is_some(), b.link.is_some());
                assert_eq!(a.provide.is_some(), b.provide.is_some());
                assert_eq!(a.keyed, b.keyed);
            }
        }
    }
}
