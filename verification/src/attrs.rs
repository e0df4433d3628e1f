//! The `#[data(..)]` field attributes of the `Data` derive: how a field is provided and
//! linked, read from the attribute's items, and what query code that asks for.
use vstd::prelude::*;
use crate::text::str_eq;

verus! {

/// How a field takes part in a query.
#[derive(Debug, Clone, Copy, PartialEq, Eq, Structural)]
pub enum Mode {
    Skip,
    Auto,
    Ref,
    Clone,
    ToOwned,
    Copy,
}

/// Why a `#[data(..)]` attribute was refused.
#[derive(Debug, Clone, Copy, PartialEq, Eq, Structural)]
pub enum AttrError {
    /// A mode was not one of the known names.
    ExpectedMode,
    /// An item that is not an attribute of `Data`.
    Unsupported,
    /// A value after an item that takes none.
    ExpectedComma,
    /// A mode given as a keyword, which is no identifier; it holds the keyword's place
    /// in the list of keywords.
    Keyword(u8),
}

/// The message of an error.
pub open spec fn attr_message(e: AttrError) -> Seq<char> {
    match e {
        AttrError::ExpectedMode => "expected one of: skip, ref, clone, to_owned, copy"@,
        AttrError::Unsupported => "unsupported attribute"@,
        AttrError::ExpectedComma => "expected `,`"@,
        AttrError::Keyword(k) => "expected identifier, found keyword `"@ + keyword_text(k) + "`"@,
    }
}

impl AttrError {
    /// The message of the error.
    pub fn message(&self) -> (r: String)
        ensures
            r@ == attr_message(*self),
    {
        match self {
            AttrError::ExpectedMode => "expected one of: skip, ref, clone, to_owned, copy".to_owned(),
            AttrError::Unsupported => "unsupported attribute".to_owned(),
            AttrError::ExpectedComma => "expected `,`".to_owned(),
            AttrError::Keyword(k) => {
                let mut out = String::from_str("expected identifier, found keyword `");
                out.append(keyword_str(*k));
                out.append("`");
                out
            },
        }
    }
}

/// The place of `name` in the list of Rust keywords that are no identifiers, if it is one.
pub open spec fn keyword_index(name: Seq<char>) -> Option<u8> {
    if name == "_"@ {
        Some(0u8)
    } else if name == "abstract"@ {
        Some(1u8)
    } else if name == "as"@ {
        Some(2u8)
    } else if name == "async"@ {
        Some(3u8)
    } else if name == "await"@ {
        Some(4u8)
    } else if name == "become"@ {
        Some(5u8)
    } else if name == "box"@ {
        Some(6u8)
    } else if name == "break"@ {
        Some(7u8)
    } else if name == "const"@ {
        Some(8u8)
    } else if name == "continue"@ {
        Some(9u8)
    } else if name == "crate"@ {
        Some(10u8)
    } else if name == "do"@ {
        Some(11u8)
    } else if name == "dyn"@ {
        Some(12u8)
    } else if name == "else"@ {
        Some(13u8)
    } else if name == "enum"@ {
        Some(14u8)
    } else if name == "extern"@ {
        Some(15u8)
    } else if name == "false"@ {
        Some(16u8)
    } else if name == "final"@ {
        Some(17u8)
    } else if name == "fn"@ {
        Some(18u8)
    } else if name == "for"@ {
        Some(19u8)
    } else if name == "if"@ {
        Some(20u8)
    } else if name == "impl"@ {
        Some(21u8)
    } else if name == "in"@ {
        Some(22u8)
    } else if name == "let"@ {
        Some(23u8)
    } else if name == "loop"@ {
        Some(24u8)
    } else if name == "macro"@ {
        Some(25u8)
    } else if name == "match"@ {
        Some(26u8)
    } else if name == "mod"@ {
        Some(27u8)
    } else if name == "move"@ {
        Some(28u8)
    } else if name == "mut"@ {
        Some(29u8)
    } else if name == "override"@ {
        Some(30u8)
    } else if name == "priv"@ {
        Some(31u8)
    } else if name == "pub"@ {
        Some(32u8)
    } else if name == "ref"@ {
        Some(33u8)
    } else if name == "return"@ {
        Some(34u8)
    } else if name == "Self"@ {
        Some(35u8)
    } else if name == "self"@ {
        Some(36u8)
    } else if name == "static"@ {
        Some(37u8)
    } else if name == "struct"@ {
        Some(38u8)
    } else if name == "super"@ {
        Some(39u8)
    } else if name == "trait"@ {
        Some(40u8)
    } else if name == "true"@ {
        Some(41u8)
    } else if name == "try"@ {
        Some(42u8)
    } else if name == "type"@ {
        Some(43u8)
    } else if name == "typeof"@ {
        Some(44u8)
    } else if name == "unsafe"@ {
        Some(45u8)
    } else if name == "unsized"@ {
        Some(46u8)
    } else if name == "use"@ {
        Some(47u8)
    } else if name == "virtual"@ {
        Some(48u8)
    } else if name == "where"@ {
        Some(49u8)
    } else if name == "while"@ {
        Some(50u8)
    } else if name == "yield"@ {
        Some(51u8)
    } else {
        None
    }
}

/// The keyword at a place in the list of keywords (the last one past the end).
pub open spec fn keyword_text(k: u8) -> Seq<char> {
    if k == 0 {
        "_"@
    } else if k == 1 {
        "abstract"@
    } else if k == 2 {
        "as"@
    } else if k == 3 {
        "async"@
    } else if k == 4 {
        "await"@
    } else if k == 5 {
        "become"@
    } else if k == 6 {
        "box"@
    } else if k == 7 {
        "break"@
    } else if k == 8 {
        "const"@
    } else if k == 9 {
        "continue"@
    } else if k == 10 {
        "crate"@
    } else if k == 11 {
        "do"@
    } else if k == 12 {
        "dyn"@
    } else if k == 13 {
        "else"@
    } else if k == 14 {
        "enum"@
    } else if k == 15 {
        "extern"@
    } else if k == 16 {
        "false"@
    } else if k == 17 {
        "final"@
    } else if k == 18 {
        "fn"@
    } else if k == 19 {
        "for"@
    } else if k == 20 {
        "if"@
    } else if k == 21 {
        "impl"@
    } else if k == 22 {
        "in"@
    } else if k == 23 {
        "let"@
    } else if k == 24 {
        "loop"@
    } else if k == 25 {
        "macro"@
    } else if k == 26 {
        "match"@
    } else if k == 27 {
        "mod"@
    } else if k == 28 {
        "move"@
    } else if k == 29 {
        "mut"@
    } else if k == 30 {
        "override"@
    } else if k == 31 {
        "priv"@
    } else if k == 32 {
        "pub"@
    } else if k == 33 {
        "ref"@
    } else if k == 34 {
        "return"@
    } else if k == 35 {
        "Self"@
    } else if k == 36 {
        "self"@
    } else if k == 37 {
        "static"@
    } else if k == 38 {
        "struct"@
    } else if k == 39 {
        "super"@
    } else if k == 40 {
        "trait"@
    } else if k == 41 {
        "true"@
    } else if k == 42 {
        "try"@
    } else if k == 43 {
        "type"@
    } else if k == 44 {
        "typeof"@
    } else if k == 45 {
        "unsafe"@
    } else if k == 46 {
        "unsized"@
    } else if k == 47 {
        "use"@
    } else if k == 48 {
        "virtual"@
    } else if k == 49 {
        "where"@
    } else if k == 50 {
        "while"@
    } else {
        "yield"@
    }
}

/// The place of `name` in the list of keywords, if it is one.
fn find_keyword(name: &str) -> (r: Option<u8>)
    ensures
        r == keyword_index(name@),
{
    if str_eq(name, "_") {
        Some(0)
    } else if str_eq(name, "abstract") {
        Some(1)
    } else if str_eq(name, "as") {
        Some(2)
    } else if str_eq(name, "async") {
        Some(3)
    } else if str_eq(name, "await") {
        Some(4)
    } else if str_eq(name, "become") {
        Some(5)
    } else if str_eq(name, "box") {
        Some(6)
    } else if str_eq(name, "break") {
        Some(7)
    } else if str_eq(name, "const") {
        Some(8)
    } else if str_eq(name, "continue") {
        Some(9)
    } else if str_eq(name, "crate") {
        Some(10)
    } else if str_eq(name, "do") {
        Some(11)
    } else if str_eq(name, "dyn") {
        Some(12)
    } else if str_eq(name, "else") {
        Some(13)
    } else if str_eq(name, "enum") {
        Some(14)
    } else if str_eq(name, "extern") {
        Some(15)
    } else if str_eq(name, "false") {
        Some(16)
    } else if str_eq(name, "final") {
        Some(17)
    } else if str_eq(name, "fn") {
        Some(18)
    } else if str_eq(name, "for") {
        Some(19)
    } else if str_eq(name, "if") {
        Some(20)
    } else if str_eq(name, "impl") {
        Some(21)
    } else if str_eq(name, "in") {
        Some(22)
    } else if str_eq(name, "let") {
        Some(23)
    } else if str_eq(name, "loop") {
        Some(24)
    } else if str_eq(name, "macro") {
        Some(25)
    } else if str_eq(name, "match") {
        Some(26)
    } else if str_eq(name, "mod") {
        Some(27)
    } else if str_eq(name, "move") {
        Some(28)
    } else if str_eq(name, "mut") {
        Some(29)
    } else if str_eq(name, "override") {
        Some(30)
    } else if str_eq(name, "priv") {
        Some(31)
    } else if str_eq(name, "pub") {
        Some(32)
    } else if str_eq(name, "ref") {
        Some(33)
    } else if str_eq(name, "return") {
        Some(34)
    } else if str_eq(name, "Self") {
        Some(35)
    } else if str_eq(name, "self") {
        Some(36)
    } else if str_eq(name, "static") {
        Some(37)
    } else if str_eq(name, "struct") {
        Some(38)
    } else if str_eq(name, "super") {
        Some(39)
    } else if str_eq(name, "trait") {
        Some(40)
    } else if str_eq(name, "true") {
        Some(41)
    } else if str_eq(name, "try") {
        Some(42)
    } else if str_eq(name, "type") {
        Some(43)
    } else if str_eq(name, "typeof") {
        Some(44)
    } else if str_eq(name, "unsafe") {
        Some(45)
    } else if str_eq(name, "unsized") {
        Some(46)
    } else if str_eq(name, "use") {
        Some(47)
    } else if str_eq(name, "virtual") {
        Some(48)
    } else if str_eq(name, "where") {
        Some(49)
    } else if str_eq(name, "while") {
        Some(50)
    } else if str_eq(name, "yield") {
        Some(51)
    } else {
        None
    }
}

/// The keyword at a place in the list of keywords.
fn keyword_str(k: u8) -> (r: &'static str)
    ensures
        r@ == keyword_text(k),
{
    if k == 0 {
        "_"
    } else if k == 1 {
        "abstract"
    } else if k == 2 {
        "as"
    } else if k == 3 {
        "async"
    } else if k == 4 {
        "await"
    } else if k == 5 {
        "become"
    } else if k == 6 {
        "box"
    } else if k == 7 {
        "break"
    } else if k == 8 {
        "const"
    } else if k == 9 {
        "continue"
    } else if k == 10 {
        "crate"
    } else if k == 11 {
        "do"
    } else if k == 12 {
        "dyn"
    } else if k == 13 {
        "else"
    } else if k == 14 {
        "enum"
    } else if k == 15 {
        "extern"
    } else if k == 16 {
        "false"
    } else if k == 17 {
        "final"
    } else if k == 18 {
        "fn"
    } else if k == 19 {
        "for"
    } else if k == 20 {
        "if"
    } else if k == 21 {
        "impl"
    } else if k == 22 {
        "in"
    } else if k == 23 {
        "let"
    } else if k == 24 {
        "loop"
    } else if k == 25 {
        "macro"
    } else if k == 26 {
        "match"
    } else if k == 27 {
        "mod"
    } else if k == 28 {
        "move"
    } else if k == 29 {
        "mut"
    } else if k == 30 {
        "override"
    } else if k == 31 {
        "priv"
    } else if k == 32 {
        "pub"
    } else if k == 33 {
        "ref"
    } else if k == 34 {
        "return"
    } else if k == 35 {
        "Self"
    } else if k == 36 {
        "self"
    } else if k == 37 {
        "static"
    } else if k == 38 {
        "struct"
    } else if k == 39 {
        "super"
    } else if k == 40 {
        "trait"
    } else if k == 41 {
        "true"
    } else if k == 42 {
        "try"
    } else if k == 43 {
        "type"
    } else if k == 44 {
        "typeof"
    } else if k == 45 {
        "unsafe"
    } else if k == 46 {
        "unsized"
    } else if k == 47 {
        "use"
    } else if k == 48 {
        "virtual"
    } else if k == 49 {
        "where"
    } else if k == 50 {
        "while"
    } else {
        "yield"
    }
}

/// What a name given as a mode gives: a keyword is refused as no identifier, another name
/// is the mode it names, if any.
pub open spec fn mode_named(name: Seq<char>) -> Result<Mode, AttrError> {
    match keyword_index(name) {
        Some(k) => Err(AttrError::Keyword(k)),
        None => match mode_of(name) {
            Some(m) => Ok(m),
            None => Err(AttrError::ExpectedMode),
        },
    }
}

/// The mode a name stands for.
pub open spec fn mode_of(name: Seq<char>) -> Option<Mode> {
    if name == "skip"@ {
        Some(Mode::Skip)
    } else if name == "ref"@ {
        Some(Mode::Ref)
    } else if name == "clone"@ {
        Some(Mode::Clone)
    } else if name == "to_owned"@ {
        Some(Mode::ToOwned)
    } else if name == "copy"@ {
        Some(Mode::Copy)
    } else if name == "auto"@ {
        Some(Mode::Auto)
    } else {
        None
    }
}

impl Mode {
    /// The mode named `name`. The name must be an identifier: a keyword such as `ref`
    /// is refused before any mode is looked for.
    pub fn parse(name: &str) -> (r: Result<Mode, AttrError>)
        ensures
            r == mode_named(name@),
    {
        if let Some(k) = find_keyword(name) {
            return Err(AttrError::Keyword(k));
        }
        if str_eq(name, "skip") {
            Ok(Mode::Skip)
        } else if str_eq(name, "ref") {
            Ok(Mode::Ref)
        } else if str_eq(name, "clone") {
            Ok(Mode::Clone)
        } else if str_eq(name, "to_owned") {
            Ok(Mode::ToOwned)
        } else if str_eq(name, "copy") {
            Ok(Mode::Copy)
        } else if str_eq(name, "auto") {
            Ok(Mode::Auto)
        } else {
            Err(AttrError::ExpectedMode)
        }
    }
}

/// One item of a `#[data(..)]` attribute: a name, and the name after `=` if there is one.
pub struct AttrItem {
    pub path: String,
    pub value: Option<String>,
}

/// The item as plain text.
pub open spec fn item_view(item: AttrItem) -> (Seq<char>, Option<Seq<char>>) {
    (
        item.path@,
        match item.value {
            Some(v) => Some(v@),
            None => None,
        },
    )
}

/// How a field is provided and how it is linked.
#[derive(Debug, Clone, Copy, PartialEq, Eq, Structural)]
pub struct Attrs {
    pub provide: Mode,
    pub link: Mode,
}

impl Default for Attrs {
    /// Not provided, linked as it comes.
    fn default() -> (r: Self)
        ensures
            r == (Attrs { provide: Mode::Skip, link: Mode::Auto }),
    {
        Attrs { provide: Mode::Skip, link: Mode::Auto }
    }
}

/// What reading the items so far has set: the provide mode, the link mode, and the
/// mode that items such as `clone` give both.
pub type AttrState = (Mode, Mode, Option<Mode>);

/// The mode given after `=`, or `Auto` when there is none.
pub open spec fn given_mode(value: Option<Seq<char>>) -> Result<Mode, AttrError> {
    match value {
        None => Ok(Mode::Auto),
        Some(v) => mode_named(v),
    }
}

/// A flag item sets the mode of both; it takes no value.
pub open spec fn flag_step(state: AttrState, value: Option<Seq<char>>, mode: Mode) -> Result<AttrState, AttrError> {
    if value is Some {
        Err(AttrError::ExpectedComma)
    } else {
        Ok((state.0, state.1, Some(mode)))
    }
}

/// Reading one item.
pub open spec fn attr_step(state: AttrState, item: (Seq<char>, Option<Seq<char>>)) -> Result<AttrState, AttrError> {
    let (path, value) = item;
    if path == "skip"@ {
        flag_step(state, value, Mode::Skip)
    } else if path == "provide"@ {
        match given_mode(value) {
            Ok(m) => Ok((m, state.1, state.2)),
            Err(e) => Err(e),
        }
    } else if path == "link"@ {
        match given_mode(value) {
            Ok(m) => Ok((state.0, m, state.2)),
            Err(e) => Err(e),
        }
    } else if path == "clone"@ {
        flag_step(state, value, Mode::Clone)
    } else if path == "to_owned"@ {
        flag_step(state, value, Mode::ToOwned)
    } else if path == "copy"@ {
        flag_step(state, value, Mode::Copy)
    } else {
        Err(AttrError::Unsupported)
    }
}

/// Reading the items in order, stopping at the first refused one.
pub open spec fn attrs_fold(items: Seq<(Seq<char>, Option<Seq<char>>)>) -> Result<AttrState, AttrError>
    decreases items.len(),
{
    if items.len() == 0 {
        Ok((Mode::Skip, Mode::Auto, None))
    } else {
        match attrs_fold(items.drop_last()) {
            Ok(state) => attr_step(state, items.last()),
            Err(e) => Err(e),
        }
    }
}

/// The attributes that the read items give: a mode left at `Auto` takes the mode that
/// an item gave both.
pub open spec fn attrs_of(state: AttrState) -> Attrs {
    let (provide, link, both) = state;
    Attrs {
        provide: match both {
            Some(m) if provide == Mode::Auto => m,
            _ => provide,
        },
        link: match both {
            Some(m) if link == Mode::Auto => m,
            _ => link,
        },
    }
}

/// What the items of an attribute give.
pub open spec fn spec_from_attr(items: Seq<AttrItem>) -> Result<Attrs, AttrError> {
    match attrs_fold(items.map_values(|i: AttrItem| item_view(i))) {
        Ok(state) => Ok(attrs_of(state)),
        Err(e) => Err(e),
    }
}

/// The mode given after `=`, or `Auto` when there is none.
fn read_given(value: &Option<String>) -> (r: Result<Mode, AttrError>)
    ensures
        r == given_mode(
            match value {
                Some(v) => Some(v@),
                None => None,
            },
        ),
{
    match value {
        None => Ok(Mode::Auto),
        Some(v) => Mode::parse(v.as_str()),
    }
}

/// Reading one item.
fn read_item(state: AttrState, item: &AttrItem) -> (r: Result<AttrState, AttrError>)
    ensures
        r == attr_step(state, item_view(*item)),
{
    let (provide, link, both) = state;
    let path = item.path.as_str();
    let flag = item.value.is_none();
    if str_eq(path, "skip") {
        if flag { Ok((provide, link, Some(Mode::Skip))) } else { Err(AttrError::ExpectedComma) }
    } else if str_eq(path, "provide") {
        match read_given(&item.value) {
            Ok(m) => Ok((m, link, both)),
            Err(e) => Err(e),
        }
    } else if str_eq(path, "link") {
        match read_given(&item.value) {
            Ok(m) => Ok((provide, m, both)),
            Err(e) => Err(e),
        }
    } else if str_eq(path, "clone") {
        if flag { Ok((provide, link, Some(Mode::Clone))) } else { Err(AttrError::ExpectedComma) }
    } else if str_eq(path, "to_owned") {
        if flag { Ok((provide, link, Some(Mode::ToOwned))) } else { Err(AttrError::ExpectedComma) }
    } else if str_eq(path, "copy") {
        if flag { Ok((provide, link, Some(Mode::Copy))) } else { Err(AttrError::ExpectedComma) }
    } else {
        Err(AttrError::Unsupported)
    }
}

impl Attrs {
    /// The attributes that the items of one `#[data(..)]` attribute give, read in order:
    /// `provide` and `link` set their mode (`Auto` when no mode follows), `skip`,
    /// `clone`, `to_owned` and `copy` give a mode to whichever of the two is left at
    /// `Auto`, the last such item winning.
    pub fn from_attr(items: &[AttrItem]) -> (r: Result<Attrs, AttrError>)
        ensures
            r == spec_from_attr(items@),
    {
        let ghost views = items@.map_values(|i: AttrItem| item_view(i));
        let mut state: AttrState = (Mode::Skip, Mode::Auto, None);
        let mut i: usize = 0;
        proof {
            assert(views.take(0) =~= Seq::<(Seq<char>, Option<Seq<char>>)>::empty());
        }
        while i < items.len()
            invariant
                0 <= i <= items@.len(),
                views == items@.map_values(|i: AttrItem| item_view(i)),
                attrs_fold(views.take(i as int)) == Ok::<AttrState, AttrError>(state),
            decreases items.len() - i,
        {
            proof {
                assert(views.take(i + 1).drop_last() =~= views.take(i as int));
                assert(views.take(i + 1).last() == item_view(items@[i as int]));
            }
            match read_item(state, &items[i]) {
                Ok(next) => {
                    state = next;
                },
                Err(e) => {
                    proof {
                        lemma_fold_stops(views, i as int + 1);
                    }
                    return Err(e);
                },
            }
            i = i + 1;
        }
        proof {
            assert(views.take(i as int) =~= views);
        }
        let (provide, link, both) = state;
        let provide = match both {
            Some(m) if provide == Mode::Auto => m,
            _ => provide,
        };
        let link = match both {
            Some(m) if link == Mode::Auto => m,
            _ => link,
        };
        Ok(Attrs { provide, link })
    }
}

/// Once reading has failed on a prefix, it fails on the whole with the same error.
proof fn lemma_fold_stops(items: Seq<(Seq<char>, Option<Seq<char>>)>, n: int)
    requires
        0 <= n <= items.len(),
        attrs_fold(items.take(n)) is Err,
    ensures
        attrs_fold(items) == attrs_fold(items.take(n)),
    decreases items.len() - n,
{
    if n < items.len() {
        assert(items.take(n + 1).drop_last() =~= items.take(n));
        lemma_fold_stops(items, n + 1);
    } else {
        assert(items.take(n) =~= items);
    }
}

/// How a field goes to the link builder.
#[derive(Debug, Clone, Copy, PartialEq, Eq, Structural)]
pub enum LinkForm {
    /// The field itself is the link.
    Direct,
    /// A link builder that owns the field.
    New,
    /// A link builder that borrows the field and may own a copy later.
    NewOwnable,
}

/// How a field's value is provided.
#[derive(Debug, Clone, Copy, PartialEq, Eq, Structural)]
pub enum ProvideForm {
    /// The value itself.
    Value,
    /// A reference to the value.
    Ref,
    /// A clone of the value, made when asked for.
    CloneValue,
    /// An owned copy of the value, made when asked for.
    ToOwnedValue,
}

/// What the query of one field does: the link it provides, whether that link carries the
/// field's name as key, and how it provides the value.
#[derive(Debug, Clone, Copy, PartialEq, Eq, Structural)]
pub struct FieldQuery {
    pub link: Option<LinkForm>,
    pub keyed: bool,
    pub provide: Option<ProvideForm>,
}

/// The link of a field queried by reference.
pub open spec fn by_ref_link(a: Attrs) -> Option<LinkForm> {
    match a.link {
        Mode::Skip => None,
        Mode::Auto => if a.provide == Mode::Copy {
            Some(LinkForm::Direct)
        } else {
            Some(LinkForm::NewOwnable)
        },
        Mode::Copy => Some(LinkForm::New),
        _ => Some(LinkForm::NewOwnable),
    }
}

/// How a field queried by reference provides its value.
pub open spec fn by_ref_provide(a: Attrs) -> Option<ProvideForm> {
    match a.provide {
        Mode::Skip => None,
        Mode::Auto => if a.link == Mode::Copy {
            Some(ProvideForm::Value)
        } else {
            Some(ProvideForm::Ref)
        },
        Mode::Ref => Some(ProvideForm::Ref),
        Mode::Clone => Some(ProvideForm::CloneValue),
        Mode::ToOwned => Some(ProvideForm::ToOwnedValue),
        Mode::Copy => Some(ProvideForm::Value),
    }
}

/// Whether an owned field is used both as link and as value.
pub open spec fn double_usage(a: Attrs) -> bool {
    !(a.provide == Mode::Skip || a.provide == Mode::Copy || a.link == Mode::Skip || a.link == Mode::Copy)
}

/// The link of an owned field.
pub open spec fn owned_link(a: Attrs) -> Option<LinkForm> {
    match a.link {
        Mode::Skip => None,
        Mode::Ref | Mode::Clone | Mode::ToOwned => if double_usage(a) {
            Some(LinkForm::NewOwnable)
        } else {
            Some(LinkForm::New)
        },
        _ => Some(LinkForm::New),
    }
}

/// How an owned field provides its value.
pub open spec fn owned_provide(a: Attrs) -> Option<ProvideForm> {
    match a.provide {
        Mode::Skip => None,
        _ => Some(ProvideForm::Value),
    }
}

/// One attribute on a field: its name and its items.
pub struct FieldAttr {
    pub path: String,
    pub items: Vec<AttrItem>,
}

/// The items of the first `#[data(..)]` attribute, if there is one.
pub open spec fn first_data_attr(attrs: Seq<FieldAttr>) -> Option<Seq<AttrItem>>
    decreases attrs.len(),
{
    if attrs.len() == 0 {
        None
    } else if attrs[0].path@ == "data"@ {
        Some(attrs[0].items@)
    } else {
        first_data_attr(attrs.drop_first())
    }
}

/// A field of a type that derives `Data`: its attributes, and whether it has a name.
#[derive(Debug, Clone, Copy, PartialEq, Eq, Structural)]
pub struct Field {
    pub attrs: Attrs,
    pub named: bool,
}

/// The field that `Field::new` makes of its attributes.
pub open spec fn spec_field(attrs: Seq<FieldAttr>, named: bool) -> Result<Field, AttrError> {
    match first_data_attr(attrs) {
        None => Ok(Field { attrs: Attrs { provide: Mode::Skip, link: Mode::Auto }, named }),
        Some(items) => match spec_from_attr(items) {
            Ok(a) => Ok(Field { attrs: a, named }),
            Err(e) => Err(e),
        },
    }
}

/// What querying a field by reference does.
pub open spec fn spec_query_by_ref(field: Field) -> FieldQuery {
    let link = by_ref_link(field.attrs);
    FieldQuery { link, keyed: field.named && link is Some, provide: by_ref_provide(field.attrs) }
}

/// What querying an owned field does.
pub open spec fn spec_query_owned(field: Field) -> FieldQuery {
    let link = owned_link(field.attrs);
    FieldQuery { link, keyed: field.named && link is Some, provide: owned_provide(field.attrs) }
}

/// Querying a field by reference and querying it owned link and provide the same
/// things, under the same key: they differ only in the form they hand them over in.
pub proof fn lemma_queries_agree(field: Field)
    ensures
        spec_query_by_ref(field).link is Some <==> spec_query_owned(field).link is Some,
        spec_query_by_ref(field).provide is Some <==> spec_query_owned(field).provide is Some,
        spec_query_by_ref(field).keyed == spec_query_owned(field).keyed,
{
}

impl Field {
    /// The field with the attributes of its first `#[data(..)]` attribute, or the
    /// default ones when it has none.
    pub fn new(attrs: &[FieldAttr], named: bool) -> (r: Result<Field, AttrError>)
        ensures
            r == spec_field(attrs@, named),
    {
        let mut i: usize = 0;
        proof {
            assert(attrs@.skip(0) =~= attrs@);
        }
        while i < attrs.len()
            invariant
                0 <= i <= attrs@.len(),
                first_data_attr(attrs@.skip(i as int)) == first_data_attr(attrs@),
            decreases attrs.len() - i,
        {
            proof {
                assert(attrs@.skip(i as int).drop_first() =~= attrs@.skip(i + 1));
                assert(attrs@.skip(i as int)[0] == attrs@[i as int]);
            }
            if str_eq(attrs[i].path.as_str(), "data") {
                return match Attrs::from_attr(attrs[i].items.as_slice()) {
                    Ok(a) => Ok(Field { attrs: a, named }),
                    Err(e) => Err(e),
                };
            }
            i = i + 1;
        }
        proof {
            assert(attrs@.skip(i as int) =~= Seq::<FieldAttr>::empty());
        }
        Ok(Field { attrs: Attrs::default(), named })
    }

    /// What querying the field by reference does.
    pub fn query_by_ref(&self) -> (r: FieldQuery)
        ensures
            r == spec_query_by_ref(*self),
    {
        let a = self.attrs;
        let link = match a.link {
            Mode::Skip => None,
            Mode::Auto => if a.provide == Mode::Copy {
                Some(LinkForm::Direct)
            } else {
                Some(LinkForm::NewOwnable)
            },
            Mode::Copy => Some(LinkForm::New),
            _ => Some(LinkForm::NewOwnable),
        };
        let provide = match a.provide {
            Mode::Skip => None,
            Mode::Auto => if a.link == Mode::Copy {
                Some(ProvideForm::Value)
            } else {
                Some(ProvideForm::Ref)
            },
            Mode::Ref => Some(ProvideForm::Ref),
            Mode::Clone => Some(ProvideForm::CloneValue),
            Mode::ToOwned => Some(ProvideForm::ToOwnedValue),
            Mode::Copy => Some(ProvideForm::Value),
        };
        FieldQuery { link, keyed: self.named && link.is_some(), provide }
    }

    /// What querying the owned field does.
    pub fn query_owned(&self) -> (r: FieldQuery)
        ensures
            r == spec_query_owned(*self),
    {
        let a = self.attrs;
        let double = !(a.provide == Mode::Skip || a.provide == Mode::Copy || a.link == Mode::Skip
            || a.link == Mode::Copy);
        let link = match a.link {
            Mode::Skip => None,
            Mode::Ref | Mode::Clone | Mode::ToOwned => if double {
                Some(LinkForm::NewOwnable)
            } else {
                Some(LinkForm::New)
            },
            _ => Some(LinkForm::New),
        };
        let provide = match a.provide {
            Mode::Skip => None,
            _ => Some(ProvideForm::Value),
        };
        FieldQuery { link, keyed: self.named && link.is_some(), provide }
    }
}

} // verus!
