use rune_core::ast::{FnArg, ItemFn};
use rune_core::gen::Id;
use rune_core::item::{component_eq, item_eq, Component, Item};
use rune_core::span::Span;
use rune_core::text::{lowercase_leading, str_eq};

fn plain_fn(args: Vec<FnArg>) -> ItemFn {
    ItemFn {
        id: None,
        async_token: None,
        fn_token: Span::new(0, 2),
        name: "hello".to_owned(),
        args,
        args_span: Span::new(8, 18),
    }
}

#[test]
fn instance_fn_starts_with_receiver() {
    let f = plain_fn(vec![FnArg::SelfValue, FnArg::Ident("foo".to_owned())]);
    assert!(f.is_instance());
}

#[test]
fn free_fn_is_not_an_instance_fn() {
    let f = plain_fn(vec![FnArg::Ident("foo".to_owned()), FnArg::SelfValue]);
    assert!(!f.is_instance());
    let empty = plain_fn(Vec::new());
    assert!(!empty.is_instance());
}

#[test]
fn item_span_starts_at_fn_keyword() {
    let f = plain_fn(Vec::new());
    assert_eq!(f.item_span(), Span::new(0, 18));
}

#[test]
fn item_span_starts_at_async_keyword() {
    let mut f = plain_fn(Vec::new());
    f.async_token = Some(Span::new(0, 5));
    f.fn_token = Span::new(6, 8);
    assert_eq!(f.item_span(), Span::new(0, 18));
}

#[test]
fn span_join_covers_both() {
    let a = Span::new(4, 10);
    let b = Span::new(7, 25);
    assert_eq!(a.join(b), Span::new(4, 25));
    assert_eq!(b.join(a), Span::new(4, 25));
}

#[test]
fn assigned_id_is_kept() {
    let mut f = plain_fn(Vec::new());
    assert_eq!(f.id, None);
    f.id = Some(Id(11));
    assert_eq!(f.id, Some(Id(11)));
}

#[test]
fn string_comparison_is_by_characters() {
    assert!(str_eq("hello", "hello"));
    assert!(!str_eq("hello", "hellos"));
    assert!(!str_eq("hello", "hellp"));
    assert!(str_eq("", ""));
}

#[test]
fn casing_heuristic_reads_the_first_character() {
    assert!(lowercase_leading("foo"));
    assert!(!lowercase_leading("Foo"));
    assert!(!lowercase_leading("_foo"));
    assert!(!lowercase_leading(""));
}

#[test]
fn components_compare_by_value() {
    assert!(component_eq(
        &Component::Str("a".to_owned()),
        &Component::Str("a".to_owned()),
    ));
    assert!(!component_eq(
        &Component::Str("a".to_owned()),
        &Component::Str("b".to_owned()),
    ));
    assert!(component_eq(&Component::Id(4), &Component::Id(4)));
    assert!(!component_eq(&Component::Id(4), &Component::Id(5)));
    assert!(!component_eq(&Component::Str("4".to_owned()), &Component::Id(4)));
}

#[test]
fn items_compare_by_components() {
    let mut a = Item::new();
    a.push(Component::Str("m".to_owned()));
    a.push(Component::Id(0));
    let mut b = Item::new();
    b.push(Component::Str("m".to_owned()));
    b.push(Component::Id(0));
    assert!(item_eq(&a, &b));
    b.push(Component::Id(1));
    assert!(!item_eq(&a, &b));
}
