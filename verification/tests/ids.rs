use bracket_ast::ids::BracketIds;

#[test]
fn new_ids_are_empty() {
    let ids = BracketIds::new();
    assert!(ids.as_slice().is_empty());
    assert!(!ids.contains(0));
}

#[test]
fn from_slice_keeps_order_and_duplicates() {
    let ids = BracketIds::from_slice(&[3, 1, 2, 1]);
    assert_eq!(ids.as_slice(), &[3, 1, 2, 1]);
}

#[test]
fn from_slice_beyond_inline_capacity() {
    let ids = BracketIds::from_slice(&[10, 20, 30, 40, 50, 60]);
    assert_eq!(ids.as_slice(), &[10, 20, 30, 40, 50, 60]);
    assert!(ids.contains(60));
}

#[test]
fn contains_finds_members_only() {
    let ids = BracketIds::from_slice(&[7, 9]);
    assert!(ids.contains(7));
    assert!(ids.contains(9));
    assert!(!ids.contains(8));
    assert!(!ids.contains(usize::MAX));
}

#[test]
fn clone_holds_the_same_ids() {
    let ids = BracketIds::from_slice(&[5, 6, 7]);
    let copy = ids.clone();
    drop(ids);
    assert_eq!(copy.as_slice(), &[5, 6, 7]);
}

#[test]
fn all_in_is_the_subset_test() {
    let open = BracketIds::from_slice(&[1, 2, 3]);
    assert!(BracketIds::new().all_in(&open));
    assert!(BracketIds::from_slice(&[1]).all_in(&open));
    assert!(BracketIds::from_slice(&[3, 1, 3]).all_in(&open));
    assert!(BracketIds::from_slice(&[1, 2, 3]).all_in(&open));
    assert!(!BracketIds::from_slice(&[4]).all_in(&open));
    assert!(!BracketIds::from_slice(&[1, 2, 3, 4]).all_in(&open));
}

#[test]
fn nothing_but_the_empty_set_is_in_the_empty_set() {
    let open = BracketIds::new();
    assert!(BracketIds::new().all_in(&open));
    assert!(!BracketIds::from_slice(&[0]).all_in(&open));
}
