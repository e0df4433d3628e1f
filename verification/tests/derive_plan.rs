use datalink::attrs::{AttrError, AttrItem, FieldAttr, FieldQuery, LinkForm, ProvideForm};
use datalink::data_impl::{is_new_type, Body, DataImpl, DeriveError, FieldDecl, Item, VariantDecl};

fn data_attr(items: &[(&str, Option<&str>)]) -> FieldAttr {
    FieldAttr {
        path: "data".to_string(),
        items: items
            .iter()
            .map(|(p, v)| AttrItem { path: p.to_string(), value: v.map(|v| v.to_string()) })
            .collect(),
    }
}

fn field(named: bool, attrs: Vec<FieldAttr>) -> FieldDecl {
    FieldDecl { attrs, named }
}

#[test]
fn unit_structs_and_newtypes() {
    let d = DataImpl::from_ast(&Item::Struct(vec![])).unwrap();
    assert!(matches!(d.query, Body::Nothing));
    assert!(matches!(d.query_owned, Body::Nothing));
    let d = DataImpl::from_ast(&Item::Struct(vec![field(false, vec![])])).unwrap();
    assert!(matches!(d.query, Body::Delegate));
    assert!(matches!(d.query_owned, Body::Delegate));
    assert!(is_new_type(&[field(false, vec![])]));
    assert!(!is_new_type(&[field(true, vec![])]));
    assert!(!is_new_type(&[field(false, vec![]), field(false, vec![])]));
}

#[test]
fn struct_fields_in_order() {
    let item = Item::Struct(vec![
        field(true, vec![]),
        field(true, vec![data_attr(&[("provide", None)])]),
    ]);
    let d = DataImpl::from_ast(&item).unwrap();
    match d.query {
        Body::Fields(v) => {
            assert_eq!(v.len(), 2);
            assert_eq!(v[0], FieldQuery { link: Some(LinkForm::NewOwnable), keyed: true, provide: None });
            assert_eq!(
                v[1],
                FieldQuery {
                    link: Some(LinkForm::NewOwnable),
                    keyed: true,
                    provide: Some(ProvideForm::Ref)
                }
            );
        },
        _ => panic!("expected fields"),
    }
    match d.query_owned {
        Body::Fields(v) => {
            assert_eq!(v[0], FieldQuery { link: Some(LinkForm::New), keyed: true, provide: None });
            assert_eq!(
                v[1],
                FieldQuery { link: Some(LinkForm::New), keyed: true, provide: Some(ProvideForm::Value) }
            );
        },
        _ => panic!("expected fields"),
    }
}

#[test]
fn refused_struct_field_fails_the_derive() {
    let item = Item::Struct(vec![
        field(true, vec![data_attr(&[("link", Some("bogus"))])]),
        field(true, vec![data_attr(&[("bogus", None)])]),
    ]);
    assert!(matches!(
        DataImpl::from_ast(&item),
        Err(DeriveError::Attr(AttrError::ExpectedMode))
    ));
}

#[test]
fn unions_cannot_derive() {
    let r = DataImpl::from_ast(&Item::Union);
    assert!(matches!(r, Err(DeriveError::Union)));
    assert_eq!(DeriveError::Union.message(), "Data cannot be derived for unions");
    assert_eq!(DeriveError::Attr(AttrError::Unsupported).message(), "unsupported attribute");
}

#[test]
fn enum_variants_keep_refused_fields_in_their_arm() {
    let item = Item::Enum(vec![
        VariantDecl { discriminant: true, fields: vec![] },
        VariantDecl {
            discriminant: false,
            fields: vec![
                field(false, vec![data_attr(&[("bogus", None)])]),
                field(false, vec![data_attr(&[("copy", None)])]),
            ],
        },
    ]);
    let d = DataImpl::from_ast(&item).unwrap();
    match d.query {
        Body::Variants(arms) => {
            assert_eq!(arms.len(), 2);
            assert!(arms[0].discriminant);
            assert!(arms[0].fields.is_empty());
            assert!(!arms[1].discriminant);
            assert_eq!(arms[1].fields[0], Err(AttrError::Unsupported));
            assert_eq!(
                arms[1].fields[1],
                Ok(FieldQuery { link: Some(LinkForm::New), keyed: false, provide: None })
            );
        },
        _ => panic!("expected variants"),
    }
    let arm = DataImpl::variant(
        &VariantDecl { discriminant: false, fields: vec![field(true, vec![])] },
        true,
    );
    assert_eq!(
        arm.fields[0],
        Ok(FieldQuery { link: Some(LinkForm::New), keyed: true, provide: None })
    );
}
