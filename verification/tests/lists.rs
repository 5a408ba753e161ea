use rusty_book_pirate::defs::{items_from, StateList};

#[test]
fn new_list_selects_nothing() {
    let l: StateList<u8> = StateList::new();
    assert_eq!(l.selected, None);
    assert!(l.items.is_empty());
}

#[test]
fn list_from_items_selects_first() {
    let l = StateList::from(vec!['a', 'b', 'c']);
    assert_eq!(l.selected, Some(0));
    assert_eq!(l.items, vec!['a', 'b', 'c']);
}

#[test]
fn next_moves_down_and_stops_at_last() {
    let mut l = StateList::from(vec![1, 2, 3]);
    l.next();
    assert_eq!(l.selected, Some(1));
    l.next();
    assert_eq!(l.selected, Some(2));
    l.next();
    assert_eq!(l.selected, Some(2));
}

#[test]
fn previous_moves_up_and_stops_at_first() {
    let mut l = StateList::from(vec![1, 2, 3]);
    l.previous();
    assert_eq!(l.selected, Some(0));
    l.next();
    l.next();
    l.previous();
    assert_eq!(l.selected, Some(1));
}

#[test]
fn moves_from_nothing_select_first() {
    let mut l: StateList<u8> = StateList::new();
    l.next();
    assert_eq!(l.selected, Some(0));
    let mut l: StateList<u8> = StateList::new();
    l.previous();
    assert_eq!(l.selected, Some(0));
}

#[test]
fn next_from_beyond_the_end_goes_to_last() {
    let mut l = StateList { selected: Some(7), items: vec![1, 2] };
    l.next();
    assert_eq!(l.selected, Some(1));
}

#[test]
fn previous_then_next_returns() {
    let mut l = StateList { selected: Some(1), items: vec![1, 2, 3] };
    l.previous();
    l.next();
    assert_eq!(l.selected, Some(1));
}

#[test]
fn items_show_and_stand_for_lines() {
    let items = items_from(&vec!["!a b".to_string(), "!c d".to_string()]);
    assert_eq!(items.len(), 2);
    assert_eq!(items[0].item, "!a b");
    assert_eq!(items[0].cmd, "!a b");
    assert_eq!(items[1].cmd, "!c d");
}
