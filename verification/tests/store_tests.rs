use list_service::errors::MyError;
use list_service::store::{add_item, create, get_all, get_items, init, remove_item, Storage};

#[test]
fn init_makes_store_ready() {
    let mut s = Storage::new();
    assert!(!s.ready);
    assert!(init(&mut s).is_ok());
    assert!(s.ready);
    assert_eq!(s.next_list_id, 101);
    assert_eq!(s.next_item_id, 101);
}

#[test]
fn init_twice_same_as_once() {
    let mut s = Storage::new();
    assert!(init(&mut s).is_ok());
    assert!(create(&mut s, "groceries".to_string()).is_ok());
    let lists_before = s.lists.len();
    let items_before = s.items.len();
    let next_list_before = s.next_list_id;
    let next_item_before = s.next_item_id;
    assert!(init(&mut s).is_ok());
    assert!(s.ready);
    assert_eq!(s.lists.len(), lists_before);
    assert_eq!(s.items.len(), items_before);
    assert_eq!(s.next_list_id, next_list_before);
    assert_eq!(s.next_item_id, next_item_before);
    assert_eq!(s.lists[0].name, "groceries");
}

#[test]
fn queries_fail_without_schema() {
    let mut s = Storage::new();
    assert!(matches!(get_all(&s), Err(MyError::PGError)));
    assert!(matches!(get_items(&s, 101), Err(MyError::PGError)));
    assert!(matches!(create(&mut s, "a".to_string()), Err(MyError::PGError)));
    assert!(matches!(add_item(&mut s, 101, "a".to_string()), Err(MyError::PGError)));
    assert!(matches!(remove_item(&mut s, 101, 101), Err(MyError::PGError)));
    assert!(s.lists.is_empty());
    assert!(s.items.is_empty());
}

#[test]
fn create_assigns_fresh_growing_ids() {
    let mut s = Storage::new();
    init(&mut s).unwrap();
    assert!(create(&mut s, "groceries".to_string()).unwrap());
    assert!(create(&mut s, "chores".to_string()).unwrap());
    let all = get_all(&s).unwrap();
    assert_eq!(all.len(), 2);
    assert_eq!(all[0].id, 101);
    assert_eq!(all[0].name, "groceries");
    assert!(!all[0].deleted);
    assert_eq!(all[1].id, 102);
    assert_eq!(all[1].name, "chores");
    assert!(all[1].id > all[0].id);
}

#[test]
fn add_item_to_absent_list_is_fk_violation() {
    let mut s = Storage::new();
    init(&mut s).unwrap();
    create(&mut s, "groceries".to_string()).unwrap();
    let r = add_item(&mut s, 999, "x".to_string());
    assert!(matches!(r, Err(MyError::PGError)));
    assert_eq!(s.items.len(), 0);
    assert_eq!(s.next_item_id, 101);
}

#[test]
fn items_for_list_are_exactly_its_items() {
    let mut s = Storage::new();
    init(&mut s).unwrap();
    create(&mut s, "groceries".to_string()).unwrap();
    create(&mut s, "chores".to_string()).unwrap();
    add_item(&mut s, 101, "milk".to_string()).unwrap();
    add_item(&mut s, 102, "mop".to_string()).unwrap();
    add_item(&mut s, 101, "eggs".to_string()).unwrap();
    let items = get_items(&s, 101).unwrap();
    assert_eq!(items.len(), 2);
    assert_eq!(items[0].name, "milk");
    assert_eq!(items[0].list_id, 101);
    assert_eq!(items[1].name, "eggs");
    assert_eq!(items[1].list_id, 101);
    let others = get_items(&s, 102).unwrap();
    assert_eq!(others.len(), 1);
    assert_eq!(others[0].name, "mop");
}

#[test]
fn removed_items_come_last_and_marked() {
    let mut s = Storage::new();
    init(&mut s).unwrap();
    create(&mut s, "groceries".to_string()).unwrap();
    add_item(&mut s, 101, "milk".to_string()).unwrap();
    add_item(&mut s, 101, "eggs".to_string()).unwrap();
    remove_item(&mut s, 101, 101).unwrap();
    let items = get_items(&s, 101).unwrap();
    assert_eq!(items.len(), 2);
    assert_eq!(items[0].name, "eggs");
    assert!(!items[0].deleted);
    assert_eq!(items[1].name, "milk");
    assert!(items[1].deleted);
}

#[test]
fn remove_absent_pair_is_noop_success() {
    let mut s = Storage::new();
    init(&mut s).unwrap();
    create(&mut s, "groceries".to_string()).unwrap();
    add_item(&mut s, 101, "milk".to_string()).unwrap();
    let r = remove_item(&mut s, 101, 999);
    assert!(r.is_ok());
    assert_eq!(s.items.len(), 1);
    assert!(!s.items[0].deleted);
    let r2 = remove_item(&mut s, 999, 101);
    assert!(r2.is_ok());
    assert!(!s.items[0].deleted);
}

#[test]
fn get_all_does_not_leak_items() {
    let mut s = Storage::new();
    init(&mut s).unwrap();
    create(&mut s, "groceries".to_string()).unwrap();
    add_item(&mut s, 101, "milk".to_string()).unwrap();
    let all = get_all(&s).unwrap();
    assert_eq!(all.len(), 1);
    assert_eq!(all[0].name, "groceries");
}

#[test]
fn inserts_fail_when_sequences_outgrow_id_column() {
    let mut s = Storage::new();
    init(&mut s).unwrap();
    create(&mut s, "groceries".to_string()).unwrap();
    s.next_list_id = (i32::MAX as i64) + 1;
    assert!(matches!(create(&mut s, "late".to_string()), Err(MyError::PGError)));
    assert_eq!(s.lists.len(), 1);
    s.next_item_id = (i32::MAX as i64) + 1;
    assert!(matches!(add_item(&mut s, 101, "milk".to_string()), Err(MyError::PGError)));
    assert!(s.items.is_empty());
}
