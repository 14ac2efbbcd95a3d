use list_service::errors::MyError;
use list_service::json::{render_empty_json_string, render_items, render_lists, render_myobj};
use list_service::models::{List, ListItem, MyObj};
use list_service::rows::{item_of_parts, list_of_parts};
use list_service::sql;

#[test]
fn empty_tables_render_as_empty_arrays() {
    assert_eq!(render_lists(&Vec::new()), "[]");
    assert_eq!(render_items(&Vec::new()), "[]");
}

#[test]
fn list_rows_render_in_field_order() {
    let rows = vec![
        List { id: 101, name: "groceries".to_string(), deleted: false },
        List { id: 102, name: "chores".to_string(), deleted: true },
    ];
    assert_eq!(
        render_lists(&rows),
        "[{\"id\":101,\"name\":\"groceries\",\"deleted\":false},{\"id\":102,\"name\":\"chores\",\"deleted\":true}]"
    );
}

#[test]
fn item_rows_carry_their_list_id() {
    let rows = vec![ListItem {
        id: 205,
        name: "milk".to_string(),
        list_id: 101,
        deleted: false,
    }];
    assert_eq!(
        render_items(&rows),
        "[{\"id\":205,\"name\":\"milk\",\"list_id\":101,\"deleted\":false}]"
    );
}

#[test]
fn negative_ids_render_with_sign() {
    let rows = vec![
        List { id: -5, name: "n".to_string(), deleted: false },
        List { id: 0, name: "z".to_string(), deleted: false },
        List { id: i32::MIN, name: "m".to_string(), deleted: false },
        List { id: i32::MAX, name: "x".to_string(), deleted: false },
    ];
    let body = render_lists(&rows);
    assert!(body.contains("{\"id\":-5,"));
    assert!(body.contains("{\"id\":0,"));
    assert!(body.contains("{\"id\":-2147483648,"));
    assert!(body.contains("{\"id\":2147483647,"));
}

#[test]
fn names_are_escaped_for_json() {
    let rows = vec![List {
        id: 101,
        name: "a\"b\\c\nd\te\ru\u{0c}v\u{08}w\u{01}x\u{1f}y€z".to_string(),
        deleted: false,
    }];
    assert_eq!(
        render_lists(&rows),
        "[{\"id\":101,\"name\":\"a\\\"b\\\\c\\nd\\te\\ru\\fv\\bw\\u0001x\\u001fy€z\",\"deleted\":false}]"
    );
}

#[test]
fn created_list_body_echoes_name_with_empty_foo() {
    let o = MyObj { name: "groceries".to_string(), foo: "".to_string() };
    assert_eq!(render_myobj(&o), "{\"name\":\"groceries\",\"foo\":\"\"}");
    assert_eq!(render_empty_json_string(), "\"\"");
}

#[test]
fn error_responses_follow_the_taxonomy() {
    assert_eq!(MyError::NotFound.error_response(), (404, "".to_string()));
    assert_eq!(MyError::PGError.error_response(), (500, "".to_string()));
    assert_eq!(MyError::PGMError.error_response(), (500, "".to_string()));
    assert_eq!(
        MyError::PoolError("pool exhausted".to_string()).error_response(),
        (500, "pool exhausted".to_string())
    );
}

#[test]
fn row_parts_assemble_exactly_when_all_fetched() {
    let l = list_of_parts::<u8>(Ok(7), Ok("a".to_string()), Ok(true)).unwrap();
    assert_eq!(l.id, 7);
    assert_eq!(l.name, "a");
    assert!(l.deleted);
    assert!(matches!(
        list_of_parts::<u8>(Err(1), Ok("a".to_string()), Ok(true)),
        Err(MyError::PGMError)
    ));
    let it = item_of_parts::<u8>(Ok(7), Ok("a".to_string()), Ok(3), Ok(false)).unwrap();
    assert_eq!(it.id, 7);
    assert_eq!(it.list_id, 3);
    assert_eq!(it.name, "a");
    assert!(!it.deleted);
    assert!(matches!(
        item_of_parts::<u8>(Ok(7), Ok("a".to_string()), Ok(3), Err(9)),
        Err(MyError::PGMError)
    ));
}

#[test]
fn statements_are_static_and_positional() {
    assert_eq!(sql::SELECT_LISTS, "select * from list");
    assert!(sql::INSERT_LIST.contains("nextval('list_id_seq')"));
    assert!(sql::INSERT_LIST.contains("$1"));
    assert_eq!(
        sql::SELECT_ITEMS,
        "select * from list_item where list_id = $1 order by deleted asc"
    );
    assert!(sql::INSERT_ITEM.contains("$2"));
    assert!(sql::REMOVE_ITEM.contains("SET deleted=true"));
    assert!(sql::INIT_SCHEMA.contains("CREATE TABLE IF NOT EXISTS list"));
    assert!(sql::INIT_SCHEMA.contains("CREATE SEQUENCE IF NOT EXISTS list_item_seq START 101"));
}
