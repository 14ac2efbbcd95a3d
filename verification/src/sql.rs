use vstd::prelude::*;

verus! {

/// The statements the service issues. All of them are static, with
/// parameters bound positionally, so no request data ever reaches the SQL
/// text.
pub const SELECT_LISTS: &'static str = "select * from list";

pub const INSERT_LIST: &'static str =
    "INSERT INTO list (id, name) VALUES (nextval('list_id_seq'), $1)";

pub const SELECT_ITEMS: &'static str =
    "select * from list_item where list_id = $1 order by deleted asc";

pub const INSERT_ITEM: &'static str =
    "INSERT INTO list_item (id, list_id, name) VALUES (nextval('list_item_seq'), $1, $2)";

pub const REMOVE_ITEM: &'static str =
    "UPDATE list_item SET deleted=true where list_id = $1 and id = $2";

pub const INIT_SCHEMA: &'static str = "
    CREATE TABLE IF NOT EXISTS list (
        id int primary key not null,
        deleted boolean not null default false,
        name varchar
    );

    CREATE TABLE IF NOT EXISTS list_item (
        id int primary key not null,
        name varchar not null,
        deleted boolean not null default false,
        list_id int not null references list(id)
    );

    CREATE SEQUENCE IF NOT EXISTS list_id_seq START 101;
    CREATE SEQUENCE IF NOT EXISTS list_item_seq START 101;
";

} // verus!
