use datalink::adapter::{Adapted, DerefAdapter};
use datalink::data::ext::DataExt;
use datalink::data::format::{format_data, DataFormatter, Ellipsable, FORMAT};
use datalink::data::json::{JsonNumber, JsonValue};
use datalink::data::kernel::{NicheStr, Value as KernelValue};
use datalink::data::unique::{Error, Fixed, MaybeUnique, Unique};
use datalink::data::{values_of, Data, Value, ValueList, Visitor};
use datalink::id::ID;
use datalink::link::NoKey;
use datalink::text::parse_isize;

fn id(n: u128) -> ID {
    ID::try_new(n).unwrap()
}

#[test]
fn data_reads_back_plain_values() {
    assert_eq!(true.as_bool(), Some(true));
    assert_eq!(7u8.as_u8(), Some(7));
    assert_eq!((-7i8).as_i8(), Some(-7));
    assert_eq!(300u16.as_u16(), Some(300));
    assert_eq!((-300i16).as_i16(), Some(-300));
    assert_eq!(70_000u32.as_u32(), Some(70_000));
    assert_eq!((-70_000i32).as_i32(), Some(-70_000));
    assert_eq!(u64::MAX.as_u64(), Some(u64::MAX));
    assert_eq!(i64::MIN.as_i64(), Some(i64::MIN));
    assert_eq!(u128::MAX.as_u128(), Some(u128::MAX));
    assert_eq!(i128::MIN.as_i128(), Some(i128::MIN));
    assert_eq!("Hello, world!".as_string(), Some("Hello, world!".to_string()));
    assert_eq!(String::from("x").as_string(), Some("x".to_string()));
    let bytes: &[u8] = &[1, 2, 3];
    assert_eq!(bytes.as_bytes(), Some(vec![1, 2, 3]));
    assert_eq!(7u8.as_string(), None);
    assert_eq!("7".as_u8(), None);
}

#[test]
fn numbers_from_any_kind_of_value() {
    assert_eq!(true.as_number(), Some(1));
    assert_eq!(false.as_number(), Some(0));
    assert_eq!(42u8.as_number(), Some(42));
    assert_eq!((-5i64).as_number(), Some(-5));
    assert_eq!('7'.as_number(), Some(7));
    assert_eq!('x'.as_number(), None);
    assert_eq!("-123".as_number(), Some(-123));
    assert_eq!("+12".as_number(), Some(12));
    assert_eq!("12a".as_number(), None);
    assert_eq!(u128::MAX.as_number(), None);
    assert_eq!((isize::MAX as i128).as_number(), Some(isize::MAX));
    assert_eq!((isize::MAX as i128 + 1).as_number(), None);
}

#[test]
fn parse_isize_follows_std() {
    for s in ["0", "-0", "+5", "-5", "123456", "", "-", "+", "1 2", "x", "99999999999999999999999"] {
        assert_eq!(parse_isize(s), s.parse::<isize>().ok(), "{s}");
    }
    assert_eq!(parse_isize(&isize::MIN.to_string()), Some(isize::MIN));
    assert_eq!(parse_isize(&isize::MAX.to_string()), Some(isize::MAX));
    assert_eq!(parse_isize(&format!("{}0", isize::MAX)), None);
}

#[test]
fn lists_provide_their_items_as_links() {
    let v = vec![1i32];
    assert!(v.has_links());
    assert!(!1i32.has_links());
    let list = v.as_list();
    assert_eq!(list.len(), 1);
    assert_eq!(list[0].as_i32(), Some(1));

    let v = vec!["Hello, world!"];
    let list = v.as_list();
    assert_eq!(list.len(), 1);
    assert_eq!(list[0].as_string().unwrap(), "Hello, world!");

    let items = v.as_items();
    assert_eq!(items.len(), 1);
    assert_eq!(items[0].0.as_string().unwrap(), "NoKey");
    assert_eq!(items[0].1.as_string().unwrap(), "Hello, world!");
}

#[test]
fn identifiers_of_data() {
    assert_eq!(42u8.get_id(), None);
    let i = id(5);
    assert_eq!(i.get_id(), Some(i));
    let mut found: Option<ID> = None;
    i.query(&mut found);
    assert_eq!(found, Some(i));
}

#[test]
fn fixed_data_is_unique() {
    let data = true;
    let res = Fixed::try_new(&data);
    assert!(matches!(res, Err(Error::MissingID)));
    assert_eq!(Error::MissingID.message(), "Missing ID");

    let f = Fixed::new(7u8, id(9));
    assert_eq!(f.id(), id(9));
    assert_eq!(f.get_id(), Some(id(9)));
    assert_eq!(*f.as_ref(), 7);
    assert_eq!(f.as_u8(), Some(7));

    let g = Fixed::new(id(3), id(9));
    assert_eq!(g.id(), id(3));
    let h = Fixed::try_new(id(4)).unwrap();
    assert_eq!(h.id(), id(4));
    let k = Fixed::new_with(1u8, || id(11));
    assert_eq!(k.id(), id(11));
    assert_eq!(1u8.into_unique(id(12)).id(), id(12));
    assert!(2u8.try_into_unique().is_err());
    let r = Fixed::new_random(3u8);
    assert_ne!(r.id().value(), 0);
}

#[test]
fn adapted_data_provides_what_its_rule_says() {
    let a: Adapted<u8> = Adapted::new(5u8);
    assert_eq!(a.as_u8(), Some(5));
    assert_eq!(a.into_inner(), 5);
    let b: Adapted<Box<u8>, DerefAdapter> = Adapted::from(Box::new(6u8));
    assert_eq!(b.as_u8(), Some(6));
    assert_eq!(**b.as_ref(), 6);
}

#[test]
fn value_lists_gather_and_provide() {
    let list = values_of(&"abc");
    assert_eq!(list.as_string().unwrap(), "abc");
    let mut other = ValueList::new();
    other.visit(Value::U8(1));
    other.visit(Value::Bool(true));
    assert_eq!(other.as_u8(), Some(1));
    assert_eq!(other.as_bool(), Some(true));
    assert_eq!(other.into_values().len(), 2);
}

#[test]
fn no_key_provides_its_name() {
    assert_eq!(NoKey.as_string().unwrap(), "NoKey");
}

#[test]
fn formatting_values() {
    assert_eq!(format_data(FORMAT::debug(), &42u8), "{\n  u8: 42\n}");
    assert_eq!(format_data(FORMAT::debug(), &-42i64), "{\n  i64: -42\n}");
    assert_eq!(format_data(FORMAT::debug(), &true), "{\n  bool: true\n}");
    assert_eq!(format_data(FORMAT::debug(), &'c'), "{\n  char: c\n}");
    assert_eq!(format_data(FORMAT::debug(), &"hi\n"), "{\n  str: \"hi\\n\"\n}");
    let bytes: &[u8] = b"a\x01";
    assert_eq!(format_data(FORMAT::debug(), &bytes), "{\n  bytes: b\"a\\x01\"\n}");
    assert_eq!(format_data(FORMAT::debug(), &Option::<u8>::None), "");
    assert_eq!(format_data(FORMAT::debug(), &id(3)), "{\n  {unknown}\n}");
    assert_eq!(format_data(FORMAT::default(), &id(3)), "{\n  {unknown}\n}");
    assert_eq!(format_data(FORMAT::compact(), &id(3)), "");
}

#[test]
fn formatting_cuts_long_texts() {
    let long = "abcdefghijklmnopqrstuvwxyz0123";
    let text = format_data(FORMAT::compact(), &long);
    assert_eq!(text, "{\n  str: \"abcdefghijklmnopqrstuvwx…\"\n}");
    assert_eq!(format_data(FORMAT::debug(), &long), format!("{{\n  str: \"{long}\"\n}}"));
    assert_eq!("abc".ellipse(&FORMAT::compact()), "abc");
    assert_eq!(long.ellipse(&FORMAT::compact()), "abcdefghijklmnopqrstuvwx…");
    assert_eq!(long.ellipse(&FORMAT::debug()), long);
}

#[test]
fn formatting_links() {
    let v = vec![1u8, 2u8];
    let text = format_data(FORMAT::debug(), &v);
    let link = |n: u8| {
        format!("  {{\n    str: \"NoKey\"\n  }} => {{\n    u8: {n}\n  }}")
    };
    assert_eq!(text, format!("{{\n{},\n{}\n}}", link(1), link(2)));
}

#[test]
fn formatter_fields_and_finish() {
    let mut f = DataFormatter::new(FORMAT::debug());
    f.field("a\nb");
    f.field("c");
    f.finish();
    f.finish();
    assert_eq!(f.into_text(), "{\n  a\n  b,\n  c\n}");
    let empty = DataFormatter::new_with_state(FORMAT::debug(), 2);
    assert_eq!(empty.into_text(), "");
}

#[test]
fn niche_strings_choose_their_form() {
    assert!(matches!(NicheStr::new_static(""), NicheStr::Empty));
    assert!(matches!(NicheStr::new_static("short"), NicheStr::Inline { .. }));
    assert!(matches!(NicheStr::new_static("a longer static text"), NicheStr::Static { .. }));
    assert!(matches!(NicheStr::new_owned("x".repeat(15)), NicheStr::Owned { .. }));
    assert!(matches!(NicheStr::new_owned("ééééééé".to_string()), NicheStr::Inline { .. }));
    assert!(matches!(NicheStr::new_owned("éééééééé".to_string()), NicheStr::Owned { .. }));
    assert_eq!(NicheStr::new_static("short").to_text(), "short");
    assert_eq!(NicheStr::borrowed("b").clone().to_text(), "b");
}

#[test]
fn kernel_values_as_text() {
    assert_eq!(KernelValue::Disabled.to_text(), "n");
    assert_eq!(KernelValue::BuiltIn.to_text(), "y");
    assert_eq!(KernelValue::Module.to_text(), "m");
    assert_eq!(KernelValue::Int(-12).to_text(), "-12");
    assert_eq!(KernelValue::Int(i64::MIN).to_text(), i64::MIN.to_string());
    assert_eq!(KernelValue::Hex(255).to_text(), "0xff");
    assert_eq!(KernelValue::Hex(0).to_text(), "0x0");
    assert_eq!(KernelValue::from_str("text").to_text(), "text");
    assert_eq!(KernelValue::from_string("owned".to_string()).to_text(), "owned");
}

#[test]
fn json_documents_as_data() {
    let n = JsonValue::Number(JsonNumber::PosInt(42));
    assert_eq!(n.as_u64(), Some(42));
    assert_eq!(n.as_i64(), Some(42));
    assert_eq!(n.as_u128(), Some(42));
    assert_eq!(n.as_i128(), Some(42));
    let neg = JsonValue::Number(JsonNumber::NegInt(-3));
    assert_eq!(neg.as_u64(), None);
    assert_eq!(neg.as_i64(), Some(-3));
    let big = JsonValue::Number(JsonNumber::PosInt(u64::MAX));
    assert_eq!(big.as_i64(), None);
    assert_eq!(big.as_u64(), Some(u64::MAX));
    assert_eq!(JsonValue::Number(JsonNumber::Float).as_i128(), None);
    assert_eq!(JsonValue::Null.has_links(), false);
    let obj = JsonValue::Object(vec![
        ("a".to_string(), JsonValue::Number(JsonNumber::PosInt(42))),
        ("b".to_string(), JsonValue::Str("hello".to_string())),
    ]);
    let items = obj.as_items();
    assert_eq!(items.len(), 2);
    assert_eq!(items[0].0.as_string().unwrap(), "a");
    assert_eq!(items[0].1.as_u64().unwrap(), 42);
    assert_eq!(items[1].0.as_string().unwrap(), "b");
    assert_eq!(items[1].1.as_string().unwrap(), "hello");
    let arr = JsonValue::Array(vec![JsonValue::Bool(true)]);
    let list = arr.as_list();
    assert_eq!(list.len(), 1);
    assert_eq!(list[0].as_bool(), Some(true));
}

#[test]
fn machine_sized_integers_at_every_width() {
    let list = values_of(&300usize).into_values();
    if usize::BITS == 64 {
        assert_eq!(list.len(), 4);
        assert!(matches!(list[0], Value::U64(300)));
        assert!(matches!(list[1], Value::U32(300)));
    } else {
        assert_eq!(list.len(), 3);
        assert!(matches!(list[0], Value::U32(300)));
    }
    assert_eq!(300usize.as_u16(), Some(300));
    assert_eq!(300usize.as_u8(), Some(44));
    let list = values_of(&-2isize).into_values();
    assert!(matches!(list[list.len() - 1], Value::I8(-2)));
    assert_eq!((-70_000isize).as_i32(), Some(-70_000));
    assert_eq!((-70_000isize).as_i16(), Some(-4464));
}

#[test]
fn unit_and_arrays_as_data() {
    assert_eq!(values_of(&()).into_values().len(), 0);
    assert_eq!([1u8, 2, 3].as_bytes(), Some(vec![1, 2, 3]));
}

#[test]
fn vec_list() {
    let v = vec!["Hello, world!"];

    let vec = DataExt::as_list(&v);

    assert_eq!(vec.len(), 1);
    let item = &vec[0];
    assert_eq!(DataExt::as_string(item).unwrap(), "Hello, world!");
}

#[test]
fn vec_items() {
    let v = vec!["Hello, world!"];

    let items = DataExt::as_items(&v);

    assert_eq!(items.len(), 1);
}

#[test]
fn string() {
    let s = String::from("Hello, world!");

    assert_eq!(DataExt::as_string(&s), Some("Hello, world!".into()));
}

#[test]
fn str() {
    let s = "Hello, world!";

    assert_eq!(DataExt::as_string(&s), Some("Hello, world!".into()));
}

#[test]
fn bool() {
    let b = true;

    assert_eq!(DataExt::as_bool(&b), Some(true));
}

#[test]
fn number() {
    let n = JsonValue::Number(JsonNumber::PosInt(42));
    let mut r = None::<u64>;
    (&n).query(&mut r);
    assert_eq!(r.unwrap(), 42u64);

    let mut r = None::<u64>;
    n.query(&mut r);
    assert_eq!(r.unwrap(), 42u64);

    let deb_num = format_data(FORMAT::debug(), &n);
    assert_ne!(deb_num.trim(), "");
    println!("{deb_num}");
}

#[test]
fn map() {
    let map = JsonValue::Object(vec![
        ("a".to_string(), JsonValue::Number(JsonNumber::PosInt(42))),
        ("b".to_string(), JsonValue::Str("hello".to_string())),
    ]);

    let items = map.as_items();

    assert_eq!(items.len(), 2);

    assert_eq!(items[0].0.as_string().unwrap(), "a");
    assert_eq!(items[0].1.as_u64().unwrap(), 42);

    assert_eq!(items[1].0.as_string().unwrap(), "b");
    assert_eq!(items[1].1.as_string().unwrap(), "hello");

    let deb_map = format_data(FORMAT::debug(), &map);
    println!("{deb_map}");
}

#[test]
fn keyed_and_unkeyed() {
    let unkeyed = ValueList::from_values(vec![Value::Link(None, vec![Value::Str("foo".to_string())])]);
    let keyed = ValueList::from_values(vec![Value::Link(Some(vec![]), vec![Value::Str("bar".to_string())])]);

    let debug_unkeyed = format_data(FORMAT::debug(), &unkeyed);
    let debug_keyed = format_data(FORMAT::debug(), &keyed);

    println!("{debug_unkeyed}");
    println!("{debug_keyed}");

    assert_ne!(debug_unkeyed, debug_keyed);
}

#[test]
fn debug_vec() {
    let v = vec![1, 2, 3];

    println!("{}", format_data(FORMAT::debug(), &v));
}

#[test]
fn data_ref() {
    let data = true;
    let res = Fixed::<&bool>::try_new(&data);
    assert!(res.is_err());
}

#[test]
fn foo() {
    let foo = ValueList::from_values(vec![
        Value::Str("Foo".to_string()),
        Value::Link(Some(vec![Value::Str("key".to_string())]), vec![Value::Str("value".to_string())]),
    ]);

    println!("{}", format_data(FORMAT::debug(), &foo));
}

#[test]
fn bar() {
    let bar = ValueList::from_values(vec![
        Value::Str("bar".to_string()),
        Value::Link(Some(vec![Value::Str("foo".to_string())]), vec![Value::Str("bar".to_string())]),
    ]);

    println!("{}", format_data(FORMAT::debug(), &bar));
}

#[test]
fn byte_escapes_follow_std() {
    let all: Vec<u8> = (0u8..=255).collect();
    let bytes: &[u8] = &all;
    let expected = format!("{{\n  bytes: b\"{}\"\n}}", bytes.escape_ascii());
    assert_eq!(format_data(FORMAT::debug(), &bytes), expected);
}

#[test]
fn adapted_data_derefs_to_its_value() {
    let a: Adapted<u8> = Adapted::new(7);
    assert_eq!(*a, 7);
}
