use core::any::TypeId;
use datalink::query::filter::{
    bytes_like, string_like, And, Any, AnyOf, EraseError, ErasedFilter, Not, Only, Or, Sorted,
    TypeFilter, ValidErasedFilter,
};

#[test]
fn filter_test_only() {
    let set = Only::<u8>::default();
    assert!(set.accepts_value_of::<u8>());
    assert!(!set.accepts_value_of::<u16>());
}

#[test]
fn filter_stringlike() {
    let set = string_like();
    assert!(set.accepts_value_of::<String>());
    assert!(set.accepts_value_of::<&str>());
    assert!(!set.accepts_value_of::<u8>());
}

#[test]
fn filter_byteslike() {
    let set = bytes_like();
    assert!(set.accepts_value_of::<Vec<u8>>());
    assert!(set.accepts_value_of::<&[u8]>());
    assert!(!set.accepts_value_of::<u8>());
}

fn id<T: ?Sized + 'static>() -> TypeId {
    TypeId::of::<T>()
}

#[test]
fn not_complements_a_set() {
    let f: ErasedFilter<EraseError> = ErasedFilter::from_slice(&[id::<u8>(), id::<u16>()]);
    let n = f.not();
    assert!(matches!(n, ErasedFilter::NoneOfHeap(_)));
    assert_eq!(n.try_contains_id(id::<u8>()), Some(false));
    assert_eq!(n.try_contains_id(id::<u32>()), Some(true));
}

#[test]
fn not_twice_gives_the_filter_back() {
    let f: ErasedFilter<EraseError> = ErasedFilter::only::<u8>();
    let back = f.not().not();
    assert!(matches!(back, ErasedFilter::Only(_)));
    assert_eq!(back.try_contains_id(id::<u8>()), Some(true));
    assert_eq!(back.try_contains_id(id::<u16>()), Some(false));
    let any: ErasedFilter<EraseError> = ErasedFilter::Any;
    assert!(matches!(any.not().not(), ErasedFilter::Any));
}

#[test]
fn or_with_nothing_keeps_other() {
    let a: ErasedFilter<EraseError> = ErasedFilter::Nothing;
    let b: ErasedFilter<EraseError> = ErasedFilter::Only(id::<u8>());
    let r = a.bitor(b);
    assert_eq!(r.try_contains_id(id::<u8>()), Some(true));
    assert_eq!(r.try_contains_id(id::<u16>()), Some(false));
}

#[test]
fn or_of_two_sets_is_todo() {
    let a: ErasedFilter<EraseError> = ErasedFilter::from_slice(&[id::<u8>(), id::<u16>()]);
    let b: ErasedFilter<EraseError> = ErasedFilter::from_slice(&[id::<u32>(), id::<u64>()]);
    let r = a.bitor(b);
    assert!(matches!(r, ErasedFilter::Invalid(EraseError::Todo)));
    assert_eq!(r.try_contains_id(id::<u8>()), None);
}

#[test]
fn and_of_only_and_negation() {
    let a: ErasedFilter<EraseError> = ErasedFilter::Only(id::<u8>());
    let b: ErasedFilter<EraseError> = ErasedFilter::NoneOfStack([id::<u8>()]);
    assert!(matches!(a.bitand(b), ErasedFilter::Nothing));
    let a: ErasedFilter<EraseError> = ErasedFilter::Only(id::<u8>());
    let b: ErasedFilter<EraseError> = ErasedFilter::NoneOfStack([id::<u16>()]);
    assert!(matches!(a.bitand(b), ErasedFilter::Only(_)));
}

#[test]
fn dynamic_cannot_be_inverted() {
    let f: ErasedFilter<EraseError> = ErasedFilter::Callback(vec![id::<u8>()]);
    assert!(matches!(f.not(), ErasedFilter::Invalid(EraseError::InverseOfCallback)));
}

#[test]
fn composed_filters_accept_by_logic() {
    let f = And(Or(Only::<u8>::new(), Only::<u16>::new()), Not(Only::<u16>::new()));
    assert!(f.accepts_value_of::<u8>());
    assert!(!f.accepts_value_of::<u16>());
    assert!(!f.accepts_value_of::<u32>());
    let erased: ValidErasedFilter = f.into_erased();
    assert!(erased.accepts_id(id::<u8>()));
    assert!(!erased.accepts_id(id::<u16>()));
}

#[test]
fn any_accepts_everything() {
    assert!(Any.accepts_value_of::<String>());
    let nothing = AnyOf::<()>::new();
    assert!(nothing.is_empty());
    assert!(!nothing.accepts_value_of::<u8>());
}

#[test]
fn sorted_contains_by_binary_search() {
    let s = Sorted::new(vec![5u32, 1, 9, 3, 7]);
    assert_eq!(s.iter(), &[1, 3, 5, 7, 9]);
    assert!(s.contains(&7));
    assert!(!s.contains(&4));
}

#[test]
fn erase_error_messages() {
    assert_eq!(EraseError::MergeDynamic.message(), "merging dynamic filters");
    assert_eq!(EraseError::Todo.message(), "todo");
}

#[test]
fn combined_filters_report_emptiness() {
    let empty: AnyOf<()> = AnyOf::new();
    assert!(empty.is_empty());
    assert!(And(Only::<u8>::new(), AnyOf::<()>::new()).is_empty());
    assert!(!Or(Only::<u8>::new(), AnyOf::<()>::new()).is_empty());
    assert!(Or(AnyOf::<()>::new(), AnyOf::<()>::new()).is_empty());
    assert!(Box::new(AnyOf::<()>::new()).is_empty());
    assert!(!Not(AnyOf::<()>::new()).is_empty());
    let f = And(Only::<u8>::new(), Not(Only::<u16>::new()));
    assert!(f.accepts_value_of::<u8>());
    assert!(!f.accepts_value_of::<u16>());
    assert!(f.accepts(&1u8));
    assert!(Or(Only::<u8>::new(), Only::<u16>::new()).accepts(&1u16));
}

#[test]
fn receivers_tell_what_they_accept() {
    use_accepted_by();
}

fn use_accepted_by() {
    let a = datalink::query::filter::AcceptedBy::<Option<u8>>::new();
    assert!(a.accepts_value_of::<u8>());
    assert!(!a.accepts_value_of::<u16>());
    assert!(!a.is_empty());
}

#[test]
fn heap_sets_keep_their_identifiers_sorted() {
    let mut ids = vec![id::<u32>(), id::<u8>(), id::<String>(), id::<u16>()];
    let f: ErasedFilter<EraseError> = ErasedFilter::from_ids(ids.clone());
    let g: ErasedFilter<EraseError> = ErasedFilter::from_slice(&ids);
    ids.sort();
    match f {
        ErasedFilter::AnyOfHeap(v) => assert_eq!(v, ids),
        _ => panic!("expected a heap set"),
    }
    match g {
        ErasedFilter::AnyOfHeap(v) => assert_eq!(v, ids),
        _ => panic!("expected a heap set"),
    }
    let a: ErasedFilter<EraseError> = ErasedFilter::AnyOfStack([id::<u64>()]);
    let b: ErasedFilter<EraseError> = ErasedFilter::AnyOfStack([id::<i8>()]);
    let mut pair = vec![id::<u64>(), id::<i8>()];
    pair.sort();
    match a.bitor(b) {
        ErasedFilter::AnyOfHeap(v) => assert_eq!(v, pair),
        _ => panic!("expected a heap set"),
    }
}
