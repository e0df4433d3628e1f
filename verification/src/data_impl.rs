//! What the `Data` derive makes of a struct or an enum: the query of each field and of
//! each variant, or why the item cannot derive `Data`.
use vstd::prelude::*;
use crate::attrs::{
    AttrError, attr_message, Field, FieldAttr, FieldQuery, spec_field, spec_query_by_ref, spec_query_owned,
};

verus! {

/// A field as the derive sees it: its attributes and whether it has a name.
pub struct FieldDecl {
    pub attrs: Vec<FieldAttr>,
    pub named: bool,
}

/// A variant: whether it gives an explicit discriminant, and its fields.
pub struct VariantDecl {
    pub discriminant: bool,
    pub fields: Vec<FieldDecl>,
}

/// The item that derives `Data`.
pub enum Item {
    Struct(Vec<FieldDecl>),
    Enum(Vec<VariantDecl>),
    Union,
}

/// Why `Data` cannot be derived.
#[derive(Debug, Clone, Copy, PartialEq, Eq, Structural)]
pub enum DeriveError {
    /// A field attribute was refused.
    Attr(AttrError),
    /// The item is a union.
    Union,
}

impl DeriveError {
    /// The message of the error.
    pub fn message(&self) -> (r: String)
        ensures
            match *self {
                DeriveError::Attr(e) => r@ == attr_message(e),
                DeriveError::Union => r@ == "Data cannot be derived for unions"@,
            },
    {
        match self {
            DeriveError::Attr(e) => e.message(),
            DeriveError::Union => "Data cannot be derived for unions".to_owned(),
        }
    }
}

/// The arm of one variant: a link to its discriminant, if it gives one, then the
/// query of each field, or the error of a field whose attribute was refused.
pub struct VariantQuery {
    pub discriminant: bool,
    pub fields: Vec<Result<FieldQuery, AttrError>>,
}

/// What a query does.
pub enum Body {
    /// Nothing: the item has no field.
    Nothing,
    /// It queries the single field of a newtype.
    Delegate,
    /// It queries each field in turn.
    Fields(Vec<FieldQuery>),
    /// It matches the variant and runs its arm.
    Variants(Vec<VariantQuery>),
}

/// What a query does, as plain values.
pub enum BodyView {
    Nothing,
    Delegate,
    Fields(Seq<FieldQuery>),
    Variants(Seq<(bool, Seq<Result<FieldQuery, AttrError>>)>),
}

/// The plain form of a query.
pub open spec fn body_view(body: Body) -> BodyView {
    match body {
        Body::Nothing => BodyView::Nothing,
        Body::Delegate => BodyView::Delegate,
        Body::Fields(v) => BodyView::Fields(v@),
        Body::Variants(v) => BodyView::Variants(v@.map_values(|a: VariantQuery| (a.discriminant, a.fields@))),
    }
}

/// The two queries of a derived `Data`: by reference and owned.
pub struct DataImpl {
    pub query: Body,
    pub query_owned: Body,
}

/// The query of one field, by reference or owned.
pub open spec fn field_query(decl: FieldDecl, owned: bool) -> Result<FieldQuery, AttrError> {
    match spec_field(decl.attrs@, decl.named) {
        Ok(f) => Ok(if owned { spec_query_owned(f) } else { spec_query_by_ref(f) }),
        Err(e) => Err(e),
    }
}

/// The queries of the fields of a struct, or the first error among them.
pub open spec fn struct_fields(fields: Seq<FieldDecl>, owned: bool) -> Result<Seq<FieldQuery>, AttrError>
    decreases fields.len(),
{
    if fields.len() == 0 {
        Ok(Seq::empty())
    } else {
        match struct_fields(fields.drop_last(), owned) {
            Err(e) => Err(e),
            Ok(done) => match field_query(fields.last(), owned) {
                Ok(q) => Ok(done.push(q)),
                Err(e) => Err(e),
            },
        }
    }
}

/// The arm of one variant.
pub open spec fn variant_arm(v: VariantDecl, owned: bool) -> (bool, Seq<Result<FieldQuery, AttrError>>) {
    (v.discriminant, v.fields@.map_values(|f: FieldDecl| field_query(f, owned)))
}

/// Whether a struct is a newtype: a single field without a name.
pub open spec fn spec_is_new_type(fields: Seq<FieldDecl>) -> bool {
    fields.len() == 1 && !fields[0].named
}

/// What the derive makes of an item: the query by reference and the owned one.
pub open spec fn spec_from_ast(item: Item) -> Result<(BodyView, BodyView), DeriveError> {
    match item {
        Item::Union => Err(DeriveError::Union),
        Item::Struct(fields) => if fields@.len() == 0 {
            Ok((BodyView::Nothing, BodyView::Nothing))
        } else if spec_is_new_type(fields@) {
            Ok((BodyView::Delegate, BodyView::Delegate))
        } else {
            match (struct_fields(fields@, false), struct_fields(fields@, true)) {
                (Ok(a), Ok(b)) => Ok((BodyView::Fields(a), BodyView::Fields(b))),
                (Err(e), _) => Err(DeriveError::Attr(e)),
                (_, Err(e)) => Err(DeriveError::Attr(e)),
            }
        },
        Item::Enum(variants) => Ok(
            (
                BodyView::Variants(variants@.map_values(|v: VariantDecl| variant_arm(v, false))),
                BodyView::Variants(variants@.map_values(|v: VariantDecl| variant_arm(v, true))),
            ),
        ),
    }
}

/// Whether a struct is a newtype: a single field without a name.
pub fn is_new_type(fields: &[FieldDecl]) -> (r: bool)
    ensures
        r == spec_is_new_type(fields@),
{
    fields.len() == 1 && !fields[0].named
}

/// The query of one field, by reference or owned.
fn query_field(decl: &FieldDecl, owned: bool) -> (r: Result<FieldQuery, AttrError>)
    ensures
        r == field_query(*decl, owned),
{
    match Field::new(decl.attrs.as_slice(), decl.named) {
        Ok(f) => Ok(if owned { f.query_owned() } else { f.query_by_ref() }),
        Err(e) => Err(e),
    }
}

/// A failed field fails the whole struct with its error.
proof fn lemma_struct_fields_stop(fields: Seq<FieldDecl>, n: int, owned: bool)
    requires
        0 <= n <= fields.len(),
        struct_fields(fields.take(n), owned) is Err,
    ensures
        struct_fields(fields, owned) == struct_fields(fields.take(n), owned),
    decreases fields.len() - n,
{
    if n < fields.len() {
        assert(fields.take(n + 1).drop_last() =~= fields.take(n));
        lemma_struct_fields_stop(fields, n + 1, owned);
    } else {
        assert(fields.take(n) =~= fields);
    }
}

/// Whether a field fails does not depend on how it is queried.
proof fn lemma_struct_fields_same_error(fields: Seq<FieldDecl>)
    ensures
        struct_fields(fields, false) is Err <==> struct_fields(fields, true) is Err,
        struct_fields(fields, false) is Err ==> struct_fields(fields, false) == struct_fields(fields, true),
    decreases fields.len(),
{
    if fields.len() > 0 {
        lemma_struct_fields_same_error(fields.drop_last());
    }
}

impl DataImpl {
    /// The queries of a struct's fields, or the error of its first refused field.
    fn struct_queries(fields: &[FieldDecl]) -> (r: Result<(Vec<FieldQuery>, Vec<FieldQuery>), AttrError>)
        ensures
            match (struct_fields(fields@, false), struct_fields(fields@, true)) {
                (Ok(a), Ok(b)) => r matches Ok((x, y)) && x@ == a && y@ == b,
                (Err(e), _) => r == Err::<(Vec<FieldQuery>, Vec<FieldQuery>), AttrError>(e),
                (_, Err(e)) => r == Err::<(Vec<FieldQuery>, Vec<FieldQuery>), AttrError>(e),
            },
    {
        let mut by_ref: Vec<FieldQuery> = Vec::new();
        let mut owned: Vec<FieldQuery> = Vec::new();
        let mut i: usize = 0;
        proof {
            assert(fields@.take(0) =~= Seq::<FieldDecl>::empty());
            lemma_struct_fields_same_error(fields@);
        }
        while i < fields.len()
            invariant
                0 <= i <= fields@.len(),
                struct_fields(fields@.take(i as int), false) == Ok::<Seq<FieldQuery>, AttrError>(by_ref@),
                struct_fields(fields@.take(i as int), true) == Ok::<Seq<FieldQuery>, AttrError>(owned@),
                struct_fields(fields@, false) is Err <==> struct_fields(fields@, true) is Err,
                struct_fields(fields@, false) is Err ==> struct_fields(fields@, false) == struct_fields(fields@, true),
            decreases fields.len() - i,
        {
            proof {
                assert(fields@.take(i + 1).drop_last() =~= fields@.take(i as int));
                assert(fields@.take(i + 1).last() == fields@[i as int]);
            }
            let a = query_field(&fields[i], false);
            let b = query_field(&fields[i], true);
            match (a, b) {
                (Ok(x), Ok(y)) => {
                    by_ref.push(x);
                    owned.push(y);
                },
                (Err(e), _) => {
                    proof {
                        lemma_struct_fields_stop(fields@, i + 1, false);
                    }
                    return Err(e);
                },
                (_, Err(e)) => {
                    proof {
                        lemma_struct_fields_stop(fields@, i + 1, true);
                    }
                    return Err(e);
                },
            }
            i = i + 1;
        }
        proof {
            assert(fields@.take(i as int) =~= fields@);
        }
        Ok((by_ref, owned))
    }

    /// The arm of one variant.
    pub fn variant(v: &VariantDecl, owned: bool) -> (r: VariantQuery)
        ensures
            (r.discriminant, r.fields@) == variant_arm(*v, owned),
    {
        let mut fields: Vec<Result<FieldQuery, AttrError>> = Vec::new();
        let mut i: usize = 0;
        while i < v.fields.len()
            invariant
                0 <= i <= v.fields@.len(),
                fields@ == v.fields@.take(i as int).map_values(|f: FieldDecl| field_query(f, owned)),
            decreases v.fields.len() - i,
        {
            let q = query_field(&v.fields[i], owned);
            fields.push(q);
            proof {
                assert(v.fields@.take(i + 1) =~= v.fields@.take(i as int).push(v.fields@[i as int]));
            }
            i = i + 1;
            proof {
                assert(fields@ =~= v.fields@.take(i as int).map_values(|f: FieldDecl| field_query(f, owned)));
            }
        }
        proof {
            assert(v.fields@.take(i as int) =~= v.fields@);
        }
        VariantQuery { discriminant: v.discriminant, fields }
    }

    /// The arms of all variants.
    fn variants(vs: &[VariantDecl], owned: bool) -> (r: Vec<VariantQuery>)
        ensures
            r@.map_values(|a: VariantQuery| (a.discriminant, a.fields@))
                == vs@.map_values(|v: VariantDecl| variant_arm(v, owned)),
    {
        let mut arms: Vec<VariantQuery> = Vec::new();
        let mut i: usize = 0;
        while i < vs.len()
            invariant
                0 <= i <= vs@.len(),
                arms@.map_values(|a: VariantQuery| (a.discriminant, a.fields@))
                    == vs@.take(i as int).map_values(|v: VariantDecl| variant_arm(v, owned)),
            decreases vs.len() - i,
        {
            let arm = Self::variant(&vs[i], owned);
            let ghost prev = arms@;
            let ghost view = (arm.discriminant, arm.fields@);
            arms.push(arm);
            proof {
                let f = |a: VariantQuery| (a.discriminant, a.fields@);
                let g = |v: VariantDecl| variant_arm(v, owned);
                assert(vs@.take(i + 1) =~= vs@.take(i as int).push(vs@[i as int]));
                assert(arms@ == prev.push(arm));
                assert(arms@.map_values(f) =~= prev.map_values(f).push(view));
                assert(vs@.take(i + 1).map_values(g) =~= vs@.take(i as int).map_values(g).push(g(vs@[i as int])));
            }
            i = i + 1;
        }
        proof {
            assert(vs@.take(i as int) =~= vs@);
        }
        arms
    }

    /// What the derive makes of `item`: nothing to query for a struct without fields,
    /// the single field for a newtype, each field in turn for another struct (failing on
    /// the first refused field attribute), an arm per variant for an enum (where a
    /// refused field stands in its arm as its error), and an error for a union.
    pub fn from_ast(item: &Item) -> (r: Result<DataImpl, DeriveError>)
        ensures
            match spec_from_ast(*item) {
                Ok((q, o)) => r matches Ok(d) && body_view(d.query) == q && body_view(d.query_owned) == o,
                Err(e) => r matches Err(x) && x == e,
            },
    {
        match item {
            Item::Union => Err(DeriveError::Union),
            Item::Struct(fields) => {
                if fields.len() == 0 {
                    Ok(DataImpl { query: Body::Nothing, query_owned: Body::Nothing })
                } else if is_new_type(fields.as_slice()) {
                    Ok(DataImpl { query: Body::Delegate, query_owned: Body::Delegate })
                } else {
                    match Self::struct_queries(fields.as_slice()) {
                        Ok((a, b)) => Ok(DataImpl { query: Body::Fields(a), query_owned: Body::Fields(b) }),
                        Err(e) => Err(DeriveError::Attr(e)),
                    }
                }
            },
            Item::Enum(variants) => {
                let a = Self::variants(variants.as_slice(), false);
                let b = Self::variants(variants.as_slice(), true);
                Ok(DataImpl { query: Body::Variants(a), query_owned: Body::Variants(b) })
            },
        }
    }
}

} // verus!
