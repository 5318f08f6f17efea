use rune_core::gen::{Gen, Id};
use rune_core::item::{item_eq, Component, Item};
use rune_core::items::Items;

fn ordinal_of_last(items: &Items) -> Option<usize> {
    match items.item().last() {
        Some(c) => c.id(),
        None => None,
    }
}

fn name_of_last(items: &Items) -> Option<String> {
    match items.item().last() {
        Some(Component::Str(s)) => Some(s.clone()),
        _ => None,
    }
}

#[test]
fn starts_empty() {
    let items = Items::new(Item::new(), Gen::new());
    assert!(items.is_empty());
    assert_eq!(items.item().len(), 0);
}

#[test]
fn seeded_path_counts_no_open_level() {
    let mut initial = Item::new();
    initial.push(Component::Str("unit".to_owned()));
    let mut items = Items::new(initial, Gen::new());
    assert!(items.is_empty());
    assert_eq!(items.item().len(), 1);
    let g = items.push_id();
    assert!(!items.is_empty());
    items.pop(g);
    assert!(items.is_empty());
    assert_eq!(items.item().len(), 1);
}

#[test]
fn push_pop_round_trip() {
    let mut items = Items::new(Item::new(), Gen::new());
    let a = items.push_name("outer");
    let b = items.push_id();
    let c = items.push_name("inner");
    assert_eq!(items.item().len(), 3);
    items.pop(c);
    items.pop(b);
    items.pop(a);
    assert!(items.is_empty());
}

#[test]
fn round_trip_preserves_initial_item() {
    let mut initial = Item::new();
    initial.push(Component::Str("unit".to_owned()));
    let mut expected = Item::new();
    expected.push(Component::Str("unit".to_owned()));

    let mut items = Items::new(initial, Gen::new());
    let a = items.push_id();
    let b = items.push_name("f");
    items.pop(b);
    items.pop(a);
    assert!(item_eq(items.item(), &expected));
}

#[test]
fn sibling_ordinals_count_up() {
    let mut items = Items::new(Item::new(), Gen::new());
    let parent = items.push_name("parent");
    let mut seen = Vec::new();
    for _ in 0..3 {
        let g = items.push_id();
        seen.push(ordinal_of_last(&items).unwrap());
        items.pop(g);
    }
    items.pop(parent);
    assert_eq!(seen, vec![0, 1, 2]);
}

#[test]
fn named_push_resets_ordinal_domain() {
    let mut items = Items::new(Item::new(), Gen::new());
    let parent = items.push_name("parent");

    let g = items.push_id();
    assert_eq!(ordinal_of_last(&items), Some(0));
    items.pop(g);

    let g = items.push_id();
    assert_eq!(ordinal_of_last(&items), Some(1));
    items.pop(g);

    let g = items.push_name("mid");
    assert_eq!(name_of_last(&items).as_deref(), Some("mid"));
    items.pop(g);

    let g = items.push_id();
    assert_eq!(ordinal_of_last(&items), Some(0));
    items.pop(g);

    items.pop(parent);
}

#[test]
fn new_resumes_from_trailing_ordinal() {
    let mut initial = Item::new();
    initial.push(Component::Str("unit".to_owned()));
    initial.push(Component::Id(7));
    let mut items = Items::new(initial, Gen::new());
    let g = items.push_id();
    assert_eq!(ordinal_of_last(&items), Some(7));
    items.pop(g);
    let g = items.push_id();
    assert_eq!(ordinal_of_last(&items), Some(8));
    items.pop(g);
}

#[test]
fn ordinal_overflow_resets_to_zero() {
    let mut initial = Item::new();
    initial.push(Component::Id(usize::MAX));
    let mut items = Items::new(initial, Gen::new());
    let g = items.push_id();
    assert_eq!(ordinal_of_last(&items), Some(usize::MAX));
    items.pop(g);
    let g = items.push_id();
    assert_eq!(ordinal_of_last(&items), Some(0));
    items.pop(g);
}

#[test]
fn id_tracks_innermost_level() {
    let mut items = Items::new(Item::new(), Gen::new());
    let a = items.push_name("a");
    assert_eq!(items.id(), Id(0));
    let b = items.push_id();
    assert_eq!(items.id(), Id(1));
    items.pop(b);
    assert_eq!(items.id(), Id(0));
    items.pop(a);
}

#[test]
fn aborted_named_block_leaves_state_as_before_entry() {
    let mut items = Items::new(Item::new(), Gen::new());
    let parent = items.push_name("parent");
    let before_len = items.item().len();

    // Enter a named nested block, descend further, then abort before the
    // work under the innermost guards finished; release is unconditional.
    let block = items.push_name("block");
    let inner = items.push_id();
    let deeper = items.push_id();
    items.pop(deeper);
    items.pop(inner);
    items.pop(block);

    assert_eq!(items.item().len(), before_len);
    assert_eq!(name_of_last(&items).as_deref(), Some("parent"));
    // The next anonymous sibling starts a fresh domain, exactly as it
    // would have had the block never been entered.
    let g = items.push_id();
    assert_eq!(ordinal_of_last(&items), Some(0));
    items.pop(g);
    items.pop(parent);
}

#[test]
fn aborted_anonymous_block_continues_sibling_numbering() {
    let mut items = Items::new(Item::new(), Gen::new());
    let parent = items.push_name("parent");

    let block = items.push_id();
    assert_eq!(ordinal_of_last(&items), Some(0));
    let inner = items.push_name("helper");
    // Abort here: the guards still release in reverse order of creation.
    items.pop(inner);
    items.pop(block);

    // The sibling after the aborted block is numbered as if the block
    // had completed normally.
    let g = items.push_id();
    assert_eq!(ordinal_of_last(&items), Some(1));
    items.pop(g);
    items.pop(parent);
}

#[test]
fn generation_counter_is_monotonic() {
    let mut g = Gen::new();
    let a = g.next();
    let b = g.next();
    let c = g.next();
    assert_eq!(a, Id(0));
    assert_eq!(b, Id(1));
    assert_eq!(c, Id(2));
    assert_ne!(a, b);
    assert_ne!(b, c);
}
