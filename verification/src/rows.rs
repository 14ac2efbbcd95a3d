use vstd::prelude::*;

use crate::errors::MyError;
use crate::models::{List, ListItem, ListItemV, ListV};
use crate::store::{items_view, lists_view};

verus! {

/// tokio_postgres's database row, carried through opaquely: a row's
/// contents are visible to specifications only through the named column
/// readings below.
#[verifier::external_type_specification]
#[verifier::external_body]
pub struct ExRow(tokio_postgres::Row);

/// tokio_postgres's error type, carried through opaquely.
#[verifier::external_type_specification]
#[verifier::external_body]
pub struct ExPgError(tokio_postgres::Error);

// Names for what Row::try_get returns: the reading of one named column of
// one row, a function of the row value and the column name alone. `None`
// stands for a failed fetch: column absent, of another type, or null.
pub uninterp spec fn row_col_i32(r: tokio_postgres::Row, col: Seq<char>) -> Option<i32>;

pub uninterp spec fn row_col_string(r: tokio_postgres::Row, col: Seq<char>) -> Option<Seq<char>>;

pub uninterp spec fn row_col_bool(r: tokio_postgres::Row, col: Seq<char>) -> Option<bool>;

/// Relies on tokio_postgres::Row::try_get at type `i32`: fetches the named
/// column, failing instead of panicking when the column is absent, of
/// another type, or null. The result is a function of the row and the
/// column alone, named `row_col_i32`.
#[verifier::external_body]
fn row_i32(row: &tokio_postgres::Row, col: &str) -> (r: Result<i32, tokio_postgres::Error>)
    ensures
        r is Ok <==> row_col_i32(*row, col@) is Some,
        r matches Ok(v) ==> row_col_i32(*row, col@) == Some(v),
{
    row.try_get(col)
}

/// Relies on tokio_postgres::Row::try_get at type `String`; see `row_i32`.
/// The result is named `row_col_string`.
#[verifier::external_body]
fn row_string(row: &tokio_postgres::Row, col: &str) -> (r: Result<String, tokio_postgres::Error>)
    ensures
        r is Ok <==> row_col_string(*row, col@) is Some,
        r matches Ok(v) ==> row_col_string(*row, col@) == Some(v@),
{
    row.try_get(col)
}

/// Relies on tokio_postgres::Row::try_get at type `bool`; see `row_i32`.
/// The result is named `row_col_bool`.
#[verifier::external_body]
fn row_bool(row: &tokio_postgres::Row, col: &str) -> (r: Result<bool, tokio_postgres::Error>)
    ensures
        r is Ok <==> row_col_bool(*row, col@) is Some,
        r matches Ok(v) ==> row_col_bool(*row, col@) == Some(v),
{
    row.try_get(col)
}

/// Whether a row carries every column of a `list` row.
pub open spec fn list_row_ok(r: tokio_postgres::Row) -> bool {
    &&& row_col_i32(r, "id"@) is Some
    &&& row_col_string(r, "name"@) is Some
    &&& row_col_bool(r, "deleted"@) is Some
}

/// The `list` entity a row carries, meaningful when `list_row_ok` holds.
pub open spec fn list_of_row(r: tokio_postgres::Row) -> ListV {
    ListV {
        id: row_col_i32(r, "id"@)->Some_0 as int,
        name: row_col_string(r, "name"@)->Some_0,
        deleted: row_col_bool(r, "deleted"@)->Some_0,
    }
}

/// Whether a row carries every column of a `list_item` row.
pub open spec fn item_row_ok(r: tokio_postgres::Row) -> bool {
    &&& row_col_i32(r, "id"@) is Some
    &&& row_col_string(r, "name"@) is Some
    &&& row_col_i32(r, "list_id"@) is Some
    &&& row_col_bool(r, "deleted"@) is Some
}

/// The `list_item` entity a row carries, meaningful when `item_row_ok`
/// holds.
pub open spec fn item_of_row(r: tokio_postgres::Row) -> ListItemV {
    ListItemV {
        id: row_col_i32(r, "id"@)->Some_0 as int,
        name: row_col_string(r, "name"@)->Some_0,
        list_id: row_col_i32(r, "list_id"@)->Some_0 as int,
        deleted: row_col_bool(r, "deleted"@)->Some_0,
    }
}

/// The entities a table of fetched `list` rows carries, row for row.
pub open spec fn lists_of_rows(rows: Seq<tokio_postgres::Row>) -> Seq<ListV> {
    Seq::new(rows.len(), |i: int| list_of_row(rows[i]))
}

/// The entities a table of fetched `list_item` rows carries, row for row.
pub open spec fn items_of_rows(rows: Seq<tokio_postgres::Row>) -> Seq<ListItemV> {
    Seq::new(rows.len(), |i: int| item_of_row(rows[i]))
}

/// Assembles a list row from its fetched columns: succeeds exactly when
/// every column was fetched, keeping each value, and maps any fetch failure
/// to a mapping error.
pub fn list_of_parts<E>(
    id: Result<i32, E>,
    name: Result<String, E>,
    deleted: Result<bool, E>,
) -> (r: Result<List, MyError>)
    ensures
        r is Ok <==> (id is Ok && name is Ok && deleted is Ok),
        r matches Ok(l) ==> l.id == id->Ok_0 && l.name == name->Ok_0 && l.deleted
            == deleted->Ok_0,
        r matches Err(e) ==> e is PGMError,
{
    match (id, name, deleted) {
        (Ok(id), Ok(name), Ok(deleted)) => Ok(List { id, name, deleted }),
        _ => Err(MyError::PGMError),
    }
}

/// Assembles an item row from its fetched columns; see `list_of_parts`.
pub fn item_of_parts<E>(
    id: Result<i32, E>,
    name: Result<String, E>,
    list_id: Result<i32, E>,
    deleted: Result<bool, E>,
) -> (r: Result<ListItem, MyError>)
    ensures
        r is Ok <==> (id is Ok && name is Ok && list_id is Ok && deleted is Ok),
        r matches Ok(it) ==> it.id == id->Ok_0 && it.name == name->Ok_0 && it.list_id
            == list_id->Ok_0 && it.deleted == deleted->Ok_0,
        r matches Err(e) ==> e is PGMError,
{
    match (id, name, list_id, deleted) {
        (Ok(id), Ok(name), Ok(list_id), Ok(deleted)) => Ok(
            ListItem { id, name, list_id, deleted },
        ),
        _ => Err(MyError::PGMError),
    }
}

/// Reads the columns of one `list` row: succeeds exactly when the row
/// carries them, yielding the entity the row carries; a row that lacks one
/// maps to a mapping error rather than a crash.
pub fn list_from_row(row: &tokio_postgres::Row) -> (r: Result<List, MyError>)
    ensures
        r is Ok <==> list_row_ok(*row),
        r matches Ok(l) ==> l@ == list_of_row(*row),
        r matches Err(e) ==> e is PGMError,
{
    let id = row_i32(row, "id");
    let name = row_string(row, "name");
    let deleted = row_bool(row, "deleted");
    list_of_parts(id, name, deleted)
}

/// Reads the columns of one `list_item` row; see `list_from_row`.
pub fn item_from_row(row: &tokio_postgres::Row) -> (r: Result<ListItem, MyError>)
    ensures
        r is Ok <==> item_row_ok(*row),
        r matches Ok(it) ==> it@ == item_of_row(*row),
        r matches Err(e) ==> e is PGMError,
{
    let id = row_i32(row, "id");
    let name = row_string(row, "name");
    let list_id = row_i32(row, "list_id");
    let deleted = row_bool(row, "deleted");
    item_of_parts(id, name, list_id, deleted)
}

/// Maps every fetched `list` row to the entity it carries, one per row, in
/// row order: succeeds exactly when every row carries its columns; the
/// first row that does not fails the whole query.
pub fn lists_from_rows(rows: &Vec<tokio_postgres::Row>) -> (r: Result<Vec<List>, MyError>)
    ensures
        r is Ok <==> (forall|i: int| 0 <= i < rows@.len() ==> list_row_ok(#[trigger] rows@[i])),
        r matches Ok(v) ==> v@.len() == rows@.len() && lists_view(v@) == lists_of_rows(rows@),
        r matches Err(e) ==> e is PGMError,
{
    let mut out: Vec<List> = Vec::new();
    let mut i: usize = 0;
    while i < rows.len()
        invariant
            0 <= i <= rows@.len(),
            out@.len() == i,
            forall|j: int| 0 <= j < i ==> list_row_ok(#[trigger] rows@[j]),
            forall|j: int| 0 <= j < i ==> (#[trigger] out@[j])@ == list_of_row(rows@[j]),
        decreases rows@.len() - i,
    {
        match list_from_row(&rows[i]) {
            Ok(l) => out.push(l),
            Err(e) => {
                proof {
                    assert(!list_row_ok(rows@[i as int]));
                }
                return Err(e);
            },
        }
        i = i + 1;
    }
    proof {
        assert(lists_view(out@) =~= lists_of_rows(rows@));
    }
    Ok(out)
}

/// Maps every fetched `list_item` row to the entity it carries; see
/// `lists_from_rows`.
pub fn items_from_rows(rows: &Vec<tokio_postgres::Row>) -> (r: Result<Vec<ListItem>, MyError>)
    ensures
        r is Ok <==> (forall|i: int| 0 <= i < rows@.len() ==> item_row_ok(#[trigger] rows@[i])),
        r matches Ok(v) ==> v@.len() == rows@.len() && items_view(v@) == items_of_rows(rows@),
        r matches Err(e) ==> e is PGMError,
{
    let mut out: Vec<ListItem> = Vec::new();
    let mut i: usize = 0;
    while i < rows.len()
        invariant
            0 <= i <= rows@.len(),
            out@.len() == i,
            forall|j: int| 0 <= j < i ==> item_row_ok(#[trigger] rows@[j]),
            forall|j: int| 0 <= j < i ==> (#[trigger] out@[j])@ == item_of_row(rows@[j]),
        decreases rows@.len() - i,
    {
        match item_from_row(&rows[i]) {
            Ok(it) => out.push(it),
            Err(e) => {
                proof {
                    assert(!item_row_ok(rows@[i as int]));
                }
                return Err(e);
            },
        }
        i = i + 1;
    }
    proof {
        assert(items_view(out@) =~= items_of_rows(rows@));
    }
    Ok(out)
}

} // verus!
