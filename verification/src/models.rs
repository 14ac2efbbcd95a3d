use vstd::prelude::*;

verus! {

/// A named collection of items, one row of the `list` table.
pub struct List {
    pub id: i32,
    pub name: String,
    pub deleted: bool,
}

/// The mathematical image of a `List`: the id as an unbounded integer and
/// the name as a sequence of characters.
pub ghost struct ListV {
    pub id: int,
    pub name: Seq<char>,
    pub deleted: bool,
}

impl View for List {
    type V = ListV;

    open spec fn view(&self) -> ListV {
        ListV { id: self.id as int, name: self.name@, deleted: self.deleted }
    }
}

/// A named entry belonging to exactly one list, one row of the `list_item`
/// table. `list_id` names the owning list.
pub struct ListItem {
    pub id: i32,
    pub name: String,
    pub list_id: i32,
    pub deleted: bool,
}

/// The mathematical image of a `ListItem`.
pub ghost struct ListItemV {
    pub id: int,
    pub name: Seq<char>,
    pub list_id: int,
    pub deleted: bool,
}

impl View for ListItem {
    type V = ListItemV;

    open spec fn view(&self) -> ListItemV {
        ListItemV {
            id: self.id as int,
            name: self.name@,
            list_id: self.list_id as int,
            deleted: self.deleted,
        }
    }
}

/// The body of a creation request: the name of the list or item to create.
pub struct Create {
    pub name: String,
}

/// The body returned by a successful list creation: the given name echoed
/// back together with an empty `foo` field.
pub struct MyObj {
    pub name: String,
    pub foo: String,
}

} // verus!
