use vstd::prelude::*;

use crate::models::ListItemV;
use crate::store::{
    add_item_t, can_add_item, can_create, create_t, has_item, has_list, init_t, item_sel,
    items_for, remove_t, StorageV,
};

verus! {

/// Membership of one row of the queried list.
pub open spec fn belongs_to(list_id: int) -> spec_fn(ListItemV) -> bool {
    |it: ListItemV| it.list_id == list_id
}

/// Law: creating a list appends exactly one row, whose name is the given
/// name and whose deleted flag is clear, and whose id is fresh: strictly
/// greater than every previously assigned list id. Every earlier row is
/// kept unchanged, so selecting all lists afterwards returns the old rows
/// followed by the new one.
pub proof fn lemma_create_then_get_all(v: StorageV, name: Seq<char>)
    requires
        v.wf(),
        can_create(v),
    ensures
        create_t(v, name).wf(),
        create_t(v, name).lists.len() == v.lists.len() + 1,
        create_t(v, name).lists.subrange(0, v.lists.len() as int) == v.lists,
        create_t(v, name).lists.last().name == name,
        !create_t(v, name).lists.last().deleted,
        forall|i: int|
            0 <= i < v.lists.len() ==> (#[trigger] v.lists[i]).id < create_t(
                v,
                name,
            ).lists.last().id,
{
    let v2 = create_t(v, name);
    assert(v2.lists.subrange(0, v.lists.len() as int) =~= v.lists);
    assert forall|k: int| 0 <= k < v2.items.len() implies has_list(
        v2,
        (#[trigger] v2.items[k]).list_id,
    ) by {
        assert(has_list(v, v.items[k].list_id));
        let w = choose|i: int|
            0 <= i < v.lists.len() && (#[trigger] v.lists[i]).id == v.items[k].list_id;
        assert(v2.lists[w] == v.lists[w]);
    }
}

/// Law: inserting an item under an absent list id cannot succeed: the
/// foreign key is violated. By `add_item`'s contract the call then returns
/// a query error and leaves the store unchanged, so no row is inserted.
pub proof fn lemma_add_item_absent_list(v: StorageV, list_id: int)
    requires
        !has_list(v, list_id),
    ensures
        !can_add_item(v, list_id),
{
}

/// Law: a successful item insertion appends exactly one row, under the
/// given list, with the given name and the deleted flag clear; every
/// earlier row is kept unchanged.
pub proof fn lemma_add_item_appends(v: StorageV, list_id: int, name: Seq<char>)
    requires
        v.wf(),
        can_add_item(v, list_id),
    ensures
        add_item_t(v, list_id, name).items.len() == v.items.len() + 1,
        add_item_t(v, list_id, name).items.subrange(0, v.items.len() as int) == v.items,
        add_item_t(v, list_id, name).items.last().list_id == list_id,
        add_item_t(v, list_id, name).items.last().name == name,
        !add_item_t(v, list_id, name).items.last().deleted,
{
    assert(add_item_t(v, list_id, name).items.subrange(0, v.items.len() as int) =~= v.items);
}

/// Law: every row the item query returns belongs to the queried list, and
/// every row of the queried list appears in the result.
pub proof fn lemma_items_for_membership(items: Seq<ListItemV>, list_id: int)
    ensures
        forall|i: int|
            0 <= i < items_for(items, list_id).len() ==> (#[trigger] items_for(
                items,
                list_id,
            )[i]).list_id == list_id,
        forall|i: int|
            0 <= i < items.len() && (#[trigger] items[i]).list_id == list_id ==> items_for(
                items,
                list_id,
            ).contains(items[i]),
{
    let live = items.filter(item_sel(list_id, false));
    let gone = items.filter(item_sel(list_id, true));
    assert forall|i: int| 0 <= i < items_for(items, list_id).len() implies (#[trigger] items_for(
        items,
        list_id,
    )[i]).list_id == list_id by {
        if i < live.len() {
            assert(items_for(items, list_id)[i] == live[i]);
            items.lemma_filter_pred(item_sel(list_id, false), i);
        } else {
            assert(items_for(items, list_id)[i] == gone[i - live.len()]);
            items.lemma_filter_pred(item_sel(list_id, true), i - live.len());
        }
    }
    assert forall|i: int|
        0 <= i < items.len() && (#[trigger] items[i]).list_id == list_id implies items_for(
        items,
        list_id,
    ).contains(items[i]) by {
        if items[i].deleted {
            items.lemma_filter_contains(item_sel(list_id, true), i);
            let j = choose|j: int| 0 <= j < gone.len() && gone[j] == items[i];
            assert(items_for(items, list_id)[live.len() + j] == items[i]);
        } else {
            items.lemma_filter_contains(item_sel(list_id, false), i);
            let j = choose|j: int| 0 <= j < live.len() && live[j] == items[i];
            assert(items_for(items, list_id)[j] == items[i]);
        }
    }
}

/// Law: the item query returns exactly as many rows as the list has, the
/// live and the soft-deleted ones together.
pub proof fn lemma_items_for_len(items: Seq<ListItemV>, list_id: int)
    ensures
        items_for(items, list_id).len() == items.filter(belongs_to(list_id)).len(),
    decreases items.len(),
{
    reveal(Seq::filter);
    if items.len() == 0 {
    } else {
        let pre = items.drop_last();
        let x = items.last();
        lemma_items_for_len(pre, list_id);
        assert(items == pre.push(x));
    }
}

/// Law: where none of the list's rows is soft-deleted, the item query
/// returns exactly the rows whose list id is the queried one, in storage
/// order.
pub proof fn lemma_items_for_no_deleted(items: Seq<ListItemV>, list_id: int)
    requires
        forall|i: int|
            0 <= i < items.len() && (#[trigger] items[i]).list_id == list_id ==> !items[i].deleted,
    ensures
        items.filter(item_sel(list_id, true)) == Seq::<ListItemV>::empty(),
        items_for(items, list_id) == items.filter(belongs_to(list_id)),
    decreases items.len(),
{
    reveal(Seq::filter);
    if items.len() == 0 {
        assert(items.filter(item_sel(list_id, true)) =~= Seq::<ListItemV>::empty());
        assert(items_for(items, list_id) =~= items.filter(belongs_to(list_id)));
    } else {
        let pre = items.drop_last();
        let x = items.last();
        assert forall|i: int|
            0 <= i < pre.len() && (#[trigger] pre[i]).list_id == list_id implies !pre[i].deleted by {
            assert(pre[i] == items[i]);
        }
        lemma_items_for_no_deleted(pre, list_id);
        let pre_live = pre.filter(item_sel(list_id, false));
        assert(pre_live + Seq::<ListItemV>::empty() =~= pre_live);
        assert(pre.filter(belongs_to(list_id)) == pre_live);
        if x.list_id == list_id {
            assert(!x.deleted);
            assert(items.filter(item_sel(list_id, false)) == pre_live.push(x));
            assert(items.filter(item_sel(list_id, true)) == Seq::<ListItemV>::empty());
            assert(items.filter(belongs_to(list_id)) == pre_live.push(x));
            assert(pre_live.push(x) + Seq::<ListItemV>::empty() =~= pre_live.push(x));
            assert(items_for(items, list_id) =~= items.filter(belongs_to(list_id)));
        } else {
            assert(items.filter(item_sel(list_id, false)) == pre_live);
            assert(items.filter(item_sel(list_id, true)) == Seq::<ListItemV>::empty());
            assert(items.filter(belongs_to(list_id)) == pre_live);
            assert(items_for(items, list_id) =~= items.filter(belongs_to(list_id)));
        }
    }
}

/// Law: creating the schema twice leaves exactly the state that creating it
/// once leaves: no error, no duplicate objects, nothing lost.
pub proof fn lemma_init_idempotent(v: StorageV)
    ensures
        init_t(init_t(v)) == init_t(v),
{
}

/// Law: a removal whose (list id, item id) pair matches no row changes
/// nothing; by `remove_item`'s contract it still reports success.
pub proof fn lemma_remove_absent_noop(v: StorageV, list_id: int, item_id: int)
    requires
        !has_item(v, list_id, item_id),
    ensures
        remove_t(v, list_id, item_id) == v,
{
    let v2 = remove_t(v, list_id, item_id);
    assert forall|i: int| 0 <= i < v.items.len() implies v2.items[i] == #[trigger] v.items[i] by {
        assert(!(v.items[i].list_id == list_id && v.items[i].id == item_id));
    }
    assert(v2.items =~= v.items);
    assert(v2 =~= v);
}

/// Law: a removal never drops a row and never touches a row of another
/// list or with another id; a matching row only has its deleted flag set.
pub proof fn lemma_remove_scoped(v: StorageV, list_id: int, item_id: int)
    ensures
        remove_t(v, list_id, item_id).items.len() == v.items.len(),
        forall|i: int|
            0 <= i < v.items.len() && !((#[trigger] v.items[i]).list_id == list_id
                && v.items[i].id == item_id) ==> remove_t(v, list_id, item_id).items[i]
                == v.items[i],
        forall|i: int|
            0 <= i < v.items.len() && (#[trigger] v.items[i]).list_id == list_id && v.items[i].id
                == item_id ==> remove_t(v, list_id, item_id).items[i] == (ListItemV {
                deleted: true,
                ..v.items[i]
            }),
{
}

} // verus!
