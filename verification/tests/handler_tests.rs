use list_service::handlers::{add_item, create, get_all, get_list, health, remove_item};
use list_service::models::Create;
use list_service::store::{init, Storage};

#[test]
fn health_answers_ok() {
    let (status, body) = health();
    assert_eq!(status, 200);
    assert_eq!(body, "OK");
}

#[test]
fn end_to_end_scenario() {
    let mut s = Storage::new();
    init(&mut s).unwrap();

    let (status, body) = create(&mut s, &Create { name: "groceries".to_string() });
    assert_eq!(status, 200);
    assert_eq!(body, "{\"name\":\"groceries\",\"foo\":\"\"}");

    let (status, body) = get_all(&s);
    assert_eq!(status, 200);
    assert_eq!(body, "[{\"id\":101,\"name\":\"groceries\",\"deleted\":false}]");

    let (status, body) = add_item(&mut s, 101, &Create { name: "milk".to_string() });
    assert_eq!(status, 200);
    assert_eq!(body, "\"\"");

    let (status, body) = get_list(&s, 101);
    assert_eq!(status, 200);
    assert_eq!(body, "[{\"id\":101,\"name\":\"milk\",\"list_id\":101,\"deleted\":false}]");

    let (status, body) = remove_item(&mut s, 101, 101);
    assert_eq!(status, 200);
    assert_eq!(body, "\"\"");

    let (status, body) = get_list(&s, 101);
    assert_eq!(status, 200);
    assert_eq!(body, "[{\"id\":101,\"name\":\"milk\",\"list_id\":101,\"deleted\":true}]");
}

#[test]
fn handlers_report_500_without_schema() {
    let mut s = Storage::new();
    let (status, body) = get_all(&s);
    assert_eq!(status, 500);
    assert_eq!(body, "");
    let (status, body) = get_list(&s, 101);
    assert_eq!(status, 500);
    assert_eq!(body, "");
    let (status, body) = create(&mut s, &Create { name: "a".to_string() });
    assert_eq!(status, 500);
    assert_eq!(body, "");
    let (status, body) = add_item(&mut s, 101, &Create { name: "a".to_string() });
    assert_eq!(status, 500);
    assert_eq!(body, "");
    let (status, body) = remove_item(&mut s, 101, 101);
    assert_eq!(status, 500);
    assert_eq!(body, "");
}

#[test]
fn add_item_handler_rejects_absent_list() {
    let mut s = Storage::new();
    init(&mut s).unwrap();
    let (status, body) = add_item(&mut s, 42, &Create { name: "milk".to_string() });
    assert_eq!(status, 500);
    assert_eq!(body, "");
    assert!(s.items.is_empty());
}

#[test]
fn two_lists_stay_separate_through_handlers() {
    let mut s = Storage::new();
    init(&mut s).unwrap();
    create(&mut s, &Create { name: "a".to_string() });
    create(&mut s, &Create { name: "b".to_string() });
    add_item(&mut s, 102, &Create { name: "only-b".to_string() });
    let (status, body) = get_list(&s, 101);
    assert_eq!(status, 200);
    assert_eq!(body, "[]");
    let (_, body) = get_list(&s, 102);
    assert_eq!(body, "[{\"id\":101,\"name\":\"only-b\",\"list_id\":102,\"deleted\":false}]");
}
