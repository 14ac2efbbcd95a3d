use vstd::prelude::*;

use crate::errors::MyError;
use crate::models::{List, ListItem, ListItemV, ListV};

verus! {

/// The persisted state of the service: the `list` and `list_item` tables in
/// storage order, the two id sequences, and whether the schema has been
/// created yet.
pub struct Storage {
    pub ready: bool,
    pub lists: Vec<List>,
    pub items: Vec<ListItem>,
    pub next_list_id: i64,
    pub next_item_id: i64,
}

/// The mathematical image of the persisted state.
#[verifier::ext_equal]
pub ghost struct StorageV {
    pub ready: bool,
    pub lists: Seq<ListV>,
    pub items: Seq<ListItemV>,
    pub next_list_id: int,
    pub next_item_id: int,
}

/// The mathematical image of a table of list rows.
pub open spec fn lists_view(ls: Seq<List>) -> Seq<ListV> {
    ls.map_values(|l: List| l@)
}

/// The mathematical image of a table of item rows.
pub open spec fn items_view(its: Seq<ListItem>) -> Seq<ListItemV> {
    its.map_values(|it: ListItem| it@)
}

impl View for Storage {
    type V = StorageV;

    open spec fn view(&self) -> StorageV {
        StorageV {
            ready: self.ready,
            lists: lists_view(self.lists@),
            items: items_view(self.items@),
            next_list_id: self.next_list_id as int,
            next_item_id: self.next_item_id as int,
        }
    }
}

/// Whether a list with the given id exists.
pub open spec fn has_list(v: StorageV, list_id: int) -> bool {
    exists|i: int| 0 <= i < v.lists.len() && (#[trigger] v.lists[i]).id == list_id
}

/// Whether an item with the given id exists under the given list.
pub open spec fn has_item(v: StorageV, list_id: int, item_id: int) -> bool {
    exists|i: int|
        0 <= i < v.items.len() && (#[trigger] v.items[i]).list_id == list_id && v.items[i].id
            == item_id
}

impl StorageV {
    /// Well-formedness of the persisted state: ids are sequence-assigned
    /// (at least the sequences' start value and below the next value),
    /// unique within each table, every item references an existing list,
    /// and a store without a schema is empty.
    pub open spec fn wf(self) -> bool {
        &&& 101 <= self.next_list_id <= i32::MAX as int + 1
        &&& 101 <= self.next_item_id <= i32::MAX as int + 1
        &&& (forall|i: int|
            0 <= i < self.lists.len() ==> 101 <= (#[trigger] self.lists[i]).id
                < self.next_list_id)
        &&& (forall|i: int, j: int|
            0 <= i < self.lists.len() && 0 <= j < self.lists.len() && i != j ==> (
            #[trigger] self.lists[i]).id != (#[trigger] self.lists[j]).id)
        &&& (forall|i: int|
            0 <= i < self.items.len() ==> 101 <= (#[trigger] self.items[i]).id
                < self.next_item_id)
        &&& (forall|i: int, j: int|
            0 <= i < self.items.len() && 0 <= j < self.items.len() && i != j ==> (
            #[trigger] self.items[i]).id != (#[trigger] self.items[j]).id)
        &&& (forall|i: int|
            0 <= i < self.items.len() ==> has_list(self, (#[trigger] self.items[i]).list_id))
        &&& (!self.ready ==> self.lists.len() == 0 && self.items.len() == 0 && self.next_list_id
            == 101 && self.next_item_id == 101)
    }
}

/// What creating the schema does: afterwards the schema exists; the tables
/// and sequences are created only if absent, so existing rows and sequence
/// positions are kept.
pub open spec fn init_t(v: StorageV) -> StorageV {
    StorageV { ready: true, ..v }
}

/// Whether inserting a list row can succeed: the schema must exist and the
/// next sequence value must still fit the integer id column.
pub open spec fn can_create(v: StorageV) -> bool {
    v.ready && v.next_list_id <= i32::MAX as int
}

/// What inserting a list row does: appends a row with the next sequence
/// value as id, the given name, and the deleted flag clear.
pub open spec fn create_t(v: StorageV, name: Seq<char>) -> StorageV {
    StorageV {
        lists: v.lists.push(ListV { id: v.next_list_id, name, deleted: false }),
        next_list_id: v.next_list_id + 1,
        ..v
    }
}

/// Whether inserting an item row can succeed: the schema must exist, the
/// referenced list must exist (the foreign key), and the next sequence
/// value must still fit the integer id column.
pub open spec fn can_add_item(v: StorageV, list_id: int) -> bool {
    v.ready && has_list(v, list_id) && v.next_item_id <= i32::MAX as int
}

/// What inserting an item row does.
pub open spec fn add_item_t(v: StorageV, list_id: int, name: Seq<char>) -> StorageV {
    StorageV {
        items: v.items.push(
            ListItemV { id: v.next_item_id, name, list_id, deleted: false },
        ),
        next_item_id: v.next_item_id + 1,
        ..v
    }
}

/// One row after a removal scoped to the given list and item id: a matching
/// row has its deleted flag set, any other row is untouched.
pub open spec fn mark_removed(it: ListItemV, list_id: int, item_id: int) -> ListItemV {
    if it.list_id == list_id && it.id == item_id {
        ListItemV { deleted: true, ..it }
    } else {
        it
    }
}

/// What the removal statement does: marks every row of the given list with
/// the given item id as deleted, and touches nothing else.
pub open spec fn remove_t(v: StorageV, list_id: int, item_id: int) -> StorageV {
    StorageV {
        items: Seq::new(v.items.len(), |i: int| mark_removed(v.items[i], list_id, item_id)),
        ..v
    }
}

/// The selection of one list's rows, matching the select statement: rows of
/// the given list, live rows first, then soft-deleted ones, each part in
/// storage order.
pub open spec fn item_sel(list_id: int, want_deleted: bool) -> spec_fn(ListItemV) -> bool {
    |it: ListItemV| it.list_id == list_id && it.deleted == want_deleted
}

/// What the item query returns for a list id.
pub open spec fn items_for(items: Seq<ListItemV>, list_id: int) -> Seq<ListItemV> {
    items.filter(item_sel(list_id, false)) + items.filter(item_sel(list_id, true))
}

impl Storage {
    /// A store whose schema has not been created yet: what a fresh database
    /// holds.
    pub fn new() -> (s: Storage)
        ensures
            s@.wf(),
            !s@.ready,
            s@.lists.len() == 0,
            s@.items.len() == 0,
    {
        Storage {
            ready: false,
            lists: Vec::new(),
            items: Vec::new(),
            next_list_id: 101,
            next_item_id: 101,
        }
    }
}

/// Idempotently creates the tables and sequences if absent.
pub fn init(s: &mut Storage) -> (r: Result<(), MyError>)
    requires
        old(s)@.wf(),
    ensures
        final(s)@.wf(),
        r is Ok,
        final(s)@ == init_t(old(s)@),
{
    s.ready = true;
    Ok(())
}

/// A field-for-field copy of a list row.
fn clone_list(l: &List) -> (r: List)
    ensures
        r@ == l@,
{
    List { id: l.id, name: l.name.clone(), deleted: l.deleted }
}

/// A field-for-field copy of an item row.
fn clone_item(it: &ListItem) -> (r: ListItem)
    ensures
        r@ == it@,
{
    ListItem { id: it.id, name: it.name.clone(), list_id: it.list_id, deleted: it.deleted }
}

/// Selects every list row, in storage order. Fails when the schema does not
/// exist yet.
pub fn get_all(s: &Storage) -> (r: Result<Vec<List>, MyError>)
    ensures
        r is Ok <==> s@.ready,
        r matches Ok(v) ==> lists_view(v@) == s@.lists,
        r matches Err(e) ==> e is PGError,
{
    if !s.ready {
        return Err(MyError::PGError);
    }
    let mut out: Vec<List> = Vec::new();
    let mut i: usize = 0;
    while i < s.lists.len()
        invariant
            0 <= i <= s.lists.len(),
            out@.len() == i,
            forall|j: int| 0 <= j < i ==> (#[trigger] out@[j])@ == s.lists@[j]@,
        decreases s.lists.len() - i,
    {
        out.push(clone_list(&s.lists[i]));
        i = i + 1;
    }
    proof {
        assert(lists_view(out@) =~= s@.lists);
    }
    Ok(out)
}

/// Inserts a new list row with a sequence-generated id and the given name.
/// Fails when the schema does not exist or the sequence has outgrown the id
/// column; nothing is inserted then.
pub fn create(s: &mut Storage, name: String) -> (r: Result<bool, MyError>)
    requires
        old(s)@.wf(),
    ensures
        final(s)@.wf(),
        r is Ok <==> can_create(old(s)@),
        can_create(old(s)@) ==> r == Ok::<bool, MyError>(true) && final(s)@ == create_t(
            old(s)@,
            name@,
        ),
        !can_create(old(s)@) ==> final(s)@ == old(s)@ && (r matches Err(e) && e is PGError),
{
    if !s.ready {
        return Err(MyError::PGError);
    }
    if s.next_list_id > i32::MAX as i64 {
        return Err(MyError::PGError);
    }
    let id: i32 = s.next_list_id as i32;
    s.lists.push(List { id, name, deleted: false });
    s.next_list_id = s.next_list_id + 1;
    proof {
        assert(s@.lists =~= create_t(old(s)@, name@).lists);
        assert(s@.items =~= old(s)@.items);
        assert(s@ =~= create_t(old(s)@, name@));
        assert forall|k: int| 0 <= k < s@.items.len() implies has_list(
            s@,
            (#[trigger] s@.items[k]).list_id,
        ) by {
            let w = choose|i: int|
                0 <= i < old(s)@.lists.len() && (#[trigger] old(s)@.lists[i]).id
                    == old(s)@.items[k].list_id;
            assert(s@.lists[w] == old(s)@.lists[w]);
        }
    }
    Ok(true)
}

/// Inserts a new item row with a sequence-generated id under the given
/// list. Fails when the schema does not exist, the list does not exist (the
/// foreign key is violated), or the sequence has outgrown the id column;
/// nothing is inserted then.
pub fn add_item(s: &mut Storage, list_id: i32, name: String) -> (r: Result<bool, MyError>)
    requires
        old(s)@.wf(),
    ensures
        final(s)@.wf(),
        r is Ok <==> can_add_item(old(s)@, list_id as int),
        can_add_item(old(s)@, list_id as int) ==> r == Ok::<bool, MyError>(true) && final(s)@
            == add_item_t(old(s)@, list_id as int, name@),
        !can_add_item(old(s)@, list_id as int) ==> final(s)@ == old(s)@ && (r matches Err(e)
            && e is PGError),
{
    if !s.ready {
        return Err(MyError::PGError);
    }
    let mut found = false;
    let mut i: usize = 0;
    while i < s.lists.len()
        invariant
            0 <= i <= s.lists.len(),
            found <==> exists|j: int|
                0 <= j < i && (#[trigger] s.lists@[j])@.id == list_id as int,
        decreases s.lists.len() - i,
    {
        if s.lists[i].id == list_id {
            found = true;
        }
        i = i + 1;
    }
    proof {
        if found {
            let j = choose|j: int|
                0 <= j < s.lists@.len() && (#[trigger] s.lists@[j])@.id == list_id as int;
            assert(s@.lists[j].id == list_id as int);
        }
        if has_list(s@, list_id as int) {
            let j = choose|j: int|
                0 <= j < s@.lists.len() && (#[trigger] s@.lists[j]).id == list_id as int;
            assert(s.lists@[j]@.id == list_id as int);
        }
        assert(found <==> has_list(s@, list_id as int));
    }
    if !found {
        return Err(MyError::PGError);
    }
    if s.next_item_id > i32::MAX as i64 {
        return Err(MyError::PGError);
    }
    let id: i32 = s.next_item_id as i32;
    s.items.push(ListItem { id, name, list_id, deleted: false });
    s.next_item_id = s.next_item_id + 1;
    proof {
        assert(s@.items =~= add_item_t(old(s)@, list_id as int, name@).items);
        assert(s@.lists =~= old(s)@.lists);
        assert(s@ =~= add_item_t(old(s)@, list_id as int, name@));
        assert forall|k: int| 0 <= k < s@.items.len() implies has_list(
            s@,
            (#[trigger] s@.items[k]).list_id,
        ) by {
            if k < old(s)@.items.len() {
                assert(has_list(old(s)@, old(s)@.items[k].list_id));
            } else {
                assert(s@.items[k].list_id == list_id as int);
            }
        }
    }
    Ok(true)
}

/// Filtering a sequence extended by one element keeps the filtered prefix
/// and appends the new element exactly when it is selected.
proof fn lemma_filter_push(s: Seq<ListItemV>, x: ListItemV, p: spec_fn(ListItemV) -> bool)
    ensures
        s.push(x).filter(p) == if p(x) {
            s.filter(p).push(x)
        } else {
            s.filter(p)
        },
{
    reveal(Seq::filter);
    assert(s.push(x).drop_last() =~= s);
    assert(s.push(x).last() == x);
}

/// Appends to `out` a copy of every row of `items` whose list and deleted
/// flag match, in storage order.
fn collect_matching(
    items: &Vec<ListItem>,
    list_id: i32,
    want_deleted: bool,
    out: &mut Vec<ListItem>,
)
    ensures
        items_view(final(out)@) == items_view(old(out)@) + items_view(items@).filter(
            item_sel(list_id as int, want_deleted),
        ),
{
    proof {
        reveal(Seq::filter);
        assert(items_view(items@).subrange(0, 0) =~= Seq::<ListItemV>::empty());
        assert(items_view(out@) =~= items_view(out@) + items_view(items@).subrange(0, 0).filter(
            item_sel(list_id as int, want_deleted),
        ));
    }
    let mut i: usize = 0;
    while i < items.len()
        invariant
            0 <= i <= items.len(),
            items_view(out@) == items_view(old(out)@) + items_view(items@).subrange(
                0,
                i as int,
            ).filter(item_sel(list_id as int, want_deleted)),
        decreases items.len() - i,
    {
        let ghost sel = item_sel(list_id as int, want_deleted);
        let ghost itemsv = items_view(items@);
        let it = &items[i];
        proof {
            assert(itemsv[i as int] == it@);
            assert(itemsv.subrange(0, i as int + 1) =~= itemsv.subrange(0, i as int).push(
                itemsv[i as int],
            ));
            lemma_filter_push(itemsv.subrange(0, i as int), itemsv[i as int], sel);
        }
        if (it.deleted == want_deleted) && it.list_id == list_id {
            let c = clone_item(it);
            let ghost pre = out@;
            out.push(c);
            proof {
                assert(sel(itemsv[i as int]));
                assert(out@ == pre.push(c));
                assert(items_view(pre) == items_view(old(out)@) + itemsv.subrange(
                    0,
                    i as int,
                ).filter(sel));
                let ghost rhs = items_view(old(out)@) + itemsv.subrange(0, i as int).filter(
                    sel,
                ).push(itemsv[i as int]);
                let ghost a = items_view(old(out)@);
                let ghost b = itemsv.subrange(0, i as int).filter(sel);
                assert forall|j: int| 0 <= j < items_view(out@).len() implies items_view(
                    out@,
                )[j] == rhs[j] by {
                    assert(items_view(pre).len() == pre.len());
                    assert(a + b == items_view(pre));
                    assert((a + b).len() == a.len() + b.len());
                    assert(a.len() + b.len() == pre.len());
                    if j < a.len() {
                        assert(rhs[j] == a[j]);
                        assert(items_view(pre)[j] == a[j]);
                        assert(items_view(out@)[j] == pre[j]@);
                        assert(items_view(pre)[j] == pre[j]@);
                    } else if j < pre.len() {
                        assert(rhs[j] == b.push(itemsv[i as int])[j - a.len()]);
                        assert(rhs[j] == b[j - a.len()]);
                        assert(items_view(pre)[j] == b[j - a.len()]);
                        assert(items_view(out@)[j] == pre[j]@);
                        assert(items_view(pre)[j] == pre[j]@);
                    } else {
                        assert(rhs[j] == itemsv[i as int]);
                        assert(items_view(out@)[j] == c@);
                        assert(c@ == itemsv[i as int]);
                    }
                }
                assert(items_view(out@).len() == pre.len() + 1);
                assert(rhs.len() == a.len() + b.push(itemsv[i as int]).len());
                assert(items_view(pre).len() == pre.len());
                assert(a + b == items_view(pre));
                assert((a + b).len() == a.len() + b.len());
                assert(items_view(out@) =~= rhs);
                assert(itemsv.subrange(0, i as int + 1).filter(sel) == itemsv.subrange(
                    0,
                    i as int,
                ).filter(sel).push(itemsv[i as int]));
                assert(items_view(out@) =~= items_view(old(out)@) + itemsv.subrange(
                    0,
                    i as int + 1,
                ).filter(sel));
            }
        } else {
            proof {
                assert(!sel(itemsv[i as int]));
                assert(itemsv.subrange(0, i as int + 1).filter(sel) == itemsv.subrange(
                    0,
                    i as int,
                ).filter(sel));
            }
        }
        i = i + 1;
    }
    proof {
        assert(items_view(items@).subrange(0, items@.len() as int) =~= items_view(items@));
    }
}

/// Selects one list's rows, live rows first and soft-deleted ones after, as
/// the ordered select statement returns them. Fails when the schema does
/// not exist yet.
pub fn get_items(s: &Storage, list_id: i32) -> (r: Result<Vec<ListItem>, MyError>)
    ensures
        r is Ok <==> s@.ready,
        r matches Ok(v) ==> items_view(v@) == items_for(s@.items, list_id as int),
        r matches Err(e) ==> e is PGError,
{
    if !s.ready {
        return Err(MyError::PGError);
    }
    let mut out: Vec<ListItem> = Vec::new();
    proof {
        assert(items_view(out@) =~= Seq::<ListItemV>::empty());
    }
    collect_matching(&s.items, list_id, false, &mut out);
    collect_matching(&s.items, list_id, true, &mut out);
    proof {
        assert(Seq::<ListItemV>::empty() + s@.items.filter(item_sel(list_id as int, false))
            =~= s@.items.filter(item_sel(list_id as int, false)));
    }
    Ok(out)
}

/// Marks every row of the given list with the given item id as deleted. A
/// pair that matches no row is a no-op that still succeeds. Fails only when
/// the schema does not exist.
pub fn remove_item(s: &mut Storage, list_id: i32, item_id: i32) -> (r: Result<(), MyError>)
    requires
        old(s)@.wf(),
    ensures
        final(s)@.wf(),
        r is Ok <==> old(s)@.ready,
        old(s)@.ready ==> final(s)@ == remove_t(old(s)@, list_id as int, item_id as int),
        !old(s)@.ready ==> final(s)@ == old(s)@ && (r matches Err(e) && e is PGError),
{
    if !s.ready {
        return Err(MyError::PGError);
    }
    let ghost target = remove_t(old(s)@, list_id as int, item_id as int);
    let mut out: Vec<ListItem> = Vec::new();
    let mut i: usize = 0;
    while i < s.items.len()
        invariant
            0 <= i <= s.items.len(),
            out@.len() == i,
            s@ == old(s)@,
            target == remove_t(old(s)@, list_id as int, item_id as int),
            forall|j: int| 0 <= j < i ==> (#[trigger] out@[j])@ == target.items[j],
        decreases s.items.len() - i,
    {
        let it = &s.items[i];
        if it.list_id == list_id && it.id == item_id {
            out.push(
                ListItem {
                    id: it.id,
                    name: it.name.clone(),
                    list_id: it.list_id,
                    deleted: true,
                },
            );
        } else {
            out.push(clone_item(it));
        }
        i = i + 1;
    }
    s.items = out;
    proof {
        assert(s@.items =~= target.items);
        assert(s@ =~= target);
        assert forall|k: int| 0 <= k < s@.items.len() implies has_list(
            s@,
            (#[trigger] s@.items[k]).list_id,
        ) by {
            assert(s@.items[k].list_id == old(s)@.items[k].list_id);
            assert(has_list(old(s)@, old(s)@.items[k].list_id));
            let w = choose|i: int|
                0 <= i < old(s)@.lists.len() && (#[trigger] old(s)@.lists[i]).id
                    == old(s)@.items[k].list_id;
            assert(s@.lists[w] == old(s)@.lists[w]);
        }
    }
    Ok(())
}

} // verus!
