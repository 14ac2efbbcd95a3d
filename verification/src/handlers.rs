use vstd::prelude::*;

use crate::json::{
    json_items, json_lists, json_myobj, json_str, render_empty_json_string, render_items,
    render_lists, render_myobj,
};
use crate::models::{Create, MyObj};
use crate::store;
use crate::store::{
    add_item_t, can_add_item, can_create, create_t, items_for, remove_t, Storage,
};

verus! {

/// Serves the health probe.
pub fn health() -> (r: (u16, String))
    ensures
        r.0 == 200,
        r.1@ == "OK"@,
{
    (200, "OK".to_owned())
}

/// Serves a request for all lists: answers 200 with the rows as a JSON
/// array, or 500 with an empty body when the query fails.
pub fn get_all(s: &Storage) -> (r: (u16, String))
    ensures
        s@.ready ==> r.0 == 200 && r.1@ == json_lists(s@.lists),
        !s@.ready ==> r.0 == 500 && r.1@ == Seq::<char>::empty(),
{
    match store::get_all(s) {
        Ok(v) => {
            let body = render_lists(&v);
            (200, body)
        },
        Err(e) => e.error_response(),
    }
}

/// Serves a list creation: inserts the list, then answers 200 echoing the
/// given name with an empty `foo` field, or 500 with an empty body when the
/// insertion fails, leaving storage unchanged.
pub fn create(s: &mut Storage, req: &Create) -> (r: (u16, String))
    requires
        old(s)@.wf(),
    ensures
        final(s)@.wf(),
        can_create(old(s)@) ==> r.0 == 200 && r.1@ == json_myobj(req.name@, Seq::<char>::empty())
            && final(s)@ == create_t(old(s)@, req.name@),
        !can_create(old(s)@) ==> r.0 == 500 && r.1@ == Seq::<char>::empty() && final(s)@ == old(
            s,
        )@,
{
    match store::create(s, req.name.clone()) {
        Ok(_) => {
            let o = MyObj { name: req.name.clone(), foo: String::new() };
            let body = render_myobj(&o);
            (200, body)
        },
        Err(e) => e.error_response(),
    }
}

/// Serves a request for one list's items: answers 200 with the rows as a
/// JSON array, live rows first, or 500 with an empty body when the query
/// fails.
pub fn get_list(s: &Storage, list_id: i32) -> (r: (u16, String))
    ensures
        s@.ready ==> r.0 == 200 && r.1@ == json_items(items_for(s@.items, list_id as int)),
        !s@.ready ==> r.0 == 500 && r.1@ == Seq::<char>::empty(),
{
    match store::get_items(s, list_id) {
        Ok(v) => {
            let body = render_items(&v);
            (200, body)
        },
        Err(e) => e.error_response(),
    }
}

/// Serves an item creation under a list: inserts the item, then answers 200
/// with an empty JSON string, or 500 with an empty body when the insertion
/// fails (the list absent among the causes), leaving storage unchanged.
pub fn add_item(s: &mut Storage, list_id: i32, req: &Create) -> (r: (u16, String))
    requires
        old(s)@.wf(),
    ensures
        final(s)@.wf(),
        can_add_item(old(s)@, list_id as int) ==> r.0 == 200 && r.1@ == json_str(
            Seq::<char>::empty(),
        ) && final(s)@ == add_item_t(old(s)@, list_id as int, req.name@),
        !can_add_item(old(s)@, list_id as int) ==> r.0 == 500 && r.1@ == Seq::<char>::empty()
            && final(s)@ == old(s)@,
{
    match store::add_item(s, list_id, req.name.clone()) {
        Ok(_) => (200, render_empty_json_string()),
        Err(e) => e.error_response(),
    }
}

/// Serves an item removal: marks the item of the list deleted (a pair that
/// matches nothing is a no-op), then answers 200 with an empty JSON string,
/// or 500 with an empty body when the statement fails.
pub fn remove_item(s: &mut Storage, list_id: i32, item_id: i32) -> (r: (u16, String))
    requires
        old(s)@.wf(),
    ensures
        final(s)@.wf(),
        old(s)@.ready ==> r.0 == 200 && r.1@ == json_str(Seq::<char>::empty()) && final(s)@
            == remove_t(old(s)@, list_id as int, item_id as int),
        !old(s)@.ready ==> r.0 == 500 && r.1@ == Seq::<char>::empty() && final(s)@ == old(s)@,
{
    match store::remove_item(s, list_id, item_id) {
        Ok(_) => (200, render_empty_json_string()),
        Err(e) => e.error_response(),
    }
}

} // verus!
