use vstd::prelude::*;
use std::collections::HashMap;
use vstd::std_specs::iter::IteratorSpec;
use crate::Uuid;
use crate::entities::{views, Attachment, AttachmentView, Item, ItemRecord, ItemView};
use crate::index::index;
use crate::model::{
    attachments_are_keyed, holds, materialize, orphans_among, owned_by, released, VaultView,
};

verus! {

broadcast use vstd::std_specs::hash::group_hash_axioms;

/// The identifiers under which `pool` holds a record, in the order in
/// which the map hands them out.
fn keys_of<T>(pool: &HashMap<Uuid, T>) -> (keys: Vec<Uuid>)
    ensures
        forall|k: Uuid| #![trigger pool@.contains_key(k)] pool@.contains_key(k) ==> keys@.contains(k),
{
    let mut keys: Vec<Uuid> = Vec::new();
    let ghost all: Seq<Uuid> = pool.keys().remaining().unref();
    assert(all.to_set() == pool@.dom());
    for k in it: pool.keys()
        invariant
            it.seq().unref() == all,
            keys@.len() == it.index(),
            forall|j: int| 0 <= j < keys@.len() ==> keys@[j] == all[j],
    {
        keys.push(*k);
    }
    assert(keys@.len() == all.len());
    assert(keys@ =~= all);
    assert forall|k: Uuid| pool@.contains_key(k) implies keys@.contains(k) by {
        assert(all.to_set().contains(k));
    }
    keys
}

/// One more record adds its item, or replaces the item of an earlier
/// record with the same identifier.
proof fn materialize_next(records: Seq<ItemRecord>, n: int, pool: Map<Uuid, AttachmentView>)
    requires
        0 <= n < records.len(),
    ensures
        materialize(records.take(n + 1), pool) == materialize(records.take(n), pool).insert(
            records[n].uuid,
            ItemView {
                uuid: records[n].uuid,
                payload: records[n].payload@,
                attachments: owned_by(pool, records[n].uuid),
            },
        ),
{
    let longer = records.take(n + 1);
    assert(longer.drop_last() =~= records.take(n));
    assert(longer.last() == records[n]);
    assert(index(longer) == index(records.take(n)).insert(records[n].uuid, records[n]));
    assert(materialize(longer, pool) =~~= materialize(records.take(n), pool).insert(
        records[n].uuid,
        ItemView {
            uuid: records[n].uuid,
            payload: records[n].payload@,
            attachments: owned_by(pool, records[n].uuid),
        },
    ));
}

/// An attachment that joins the pool and belongs to one of the items
/// joins that item, and changes nothing else.
proof fn joins_its_item(
    records: Seq<ItemRecord>,
    pool: Map<Uuid, AttachmentView>,
    k: Uuid,
    a: AttachmentView,
)
    requires
        !pool.contains_key(k),
        index(records).contains_key(a.item),
    ensures
        materialize(records, pool.insert(k, a)) == materialize(records, pool).insert(
            a.item,
            ItemView {
                uuid: a.item,
                payload: index(records)[a.item].payload@,
                attachments: owned_by(pool, a.item).insert(k, a),
            },
        ),
        orphans_among(pool.insert(k, a), index(records).dom()) == orphans_among(
            pool,
            index(records).dom(),
        ),
{
    let larger = pool.insert(k, a);
    assert(owned_by(larger, a.item) =~= owned_by(pool, a.item).insert(k, a));
    assert forall|u: Uuid| u != a.item implies owned_by(larger, u) == owned_by(pool, u) by {
        assert(owned_by(larger, u) =~= owned_by(pool, u));
    }
    assert(materialize(records, larger) =~= materialize(records, pool).insert(
        a.item,
        ItemView {
            uuid: a.item,
            payload: index(records)[a.item].payload@,
            attachments: owned_by(pool, a.item).insert(k, a),
        },
    ));
    assert(orphans_among(larger, index(records).dom()) =~= orphans_among(
        pool,
        index(records).dom(),
    ));
}

/// An attachment that joins the pool and belongs to none of the items
/// joins the orphans, and changes nothing else.
proof fn joins_the_orphans(
    records: Seq<ItemRecord>,
    pool: Map<Uuid, AttachmentView>,
    k: Uuid,
    a: AttachmentView,
)
    requires
        !pool.contains_key(k),
        !index(records).contains_key(a.item),
    ensures
        materialize(records, pool.insert(k, a)) == materialize(records, pool),
        orphans_among(pool.insert(k, a), index(records).dom()) == orphans_among(
            pool,
            index(records).dom(),
        ).insert(k, a),
{
    let larger = pool.insert(k, a);
    assert forall|u: Uuid| u != a.item implies owned_by(larger, u) == owned_by(pool, u) by {
        assert(owned_by(larger, u) =~= owned_by(pool, u));
    }
    assert(materialize(records, larger) =~= materialize(records, pool));
    assert(orphans_among(larger, index(records).dom()) =~= orphans_among(
        pool,
        index(records).dom(),
    ).insert(k, a));
}

/// Taking an item out of a vault and letting its attachments stand alone
/// keeps the vault well formed and loses no attachment.
proof fn release(vault: VaultView, u: Uuid)
    requires
        vault.wf(),
        vault.items is Some,
        vault.items->Some_0.contains_key(u),
    ensures
        released(vault, u).wf(),
        released(vault, u).attachments() == vault.attachments(),
{
    let items = vault.items->Some_0;
    let after = released(vault, u);
    let fewer = after.items->Some_0;
    attachments_are_keyed(vault);
    assert forall|w: Uuid, k: Uuid| #[trigger] holds(fewer, w, k) implies holds(items, w, k) && w
        != u by {}
    assert forall|k: Uuid| (#[trigger] after.orphans.contains_key(k)) implies {
        &&& after.orphans[k].uuid == k
        &&& !fewer.contains_key(after.orphans[k].item)
    } by {
        if items[u].attachments.contains_key(k) {
            assert(holds(items, u, k));
        } else {
            assert(vault.orphans.contains_key(k));
        }
    }
    assert forall|w: Uuid, k: Uuid| #[trigger] holds(fewer, w, k) implies {
        &&& fewer[w].attachments[k].uuid == k
        &&& fewer[w].attachments[k].item == w
        &&& !after.orphans.contains_key(k)
    } by {
        assert(holds(items, w, k));
        if items[u].attachments.contains_key(k) {
            assert(holds(items, u, k));
        }
    }
    assert(after.wf());
    attachments_are_keyed(after);
    assert forall|k: Uuid| vault.attachments().contains_key(k) implies after.attachments().contains_key(
        k,
    ) && after.attachments()[k] == vault.attachments()[k] by {
        if vault.orphans.contains_key(k) {
            assert(after.orphans.contains_key(k));
            if items[u].attachments.contains_key(k) {
                assert(holds(items, u, k));
            }
        } else {
            let w = choose|w: Uuid| holds(items, w, k);
            assert(holds(items, w, k));
            if w == u {
                assert(after.orphans.contains_key(k));
            } else {
                assert(holds(fewer, w, k));
            }
        }
    }
    assert forall|k: Uuid| after.attachments().contains_key(k) implies vault.attachments().contains_key(
        k,
    ) by {
        if after.orphans.contains_key(k) {
            if items[u].attachments.contains_key(k) {
                assert(holds(items, u, k));
            }
        } else {
            let w = choose|w: Uuid| holds(fewer, w, k);
            assert(holds(fewer, w, k));
            assert(holds(items, w, k));
        }
    }
    assert(after.attachments() =~= vault.attachments());
}

/// Moves every attachment of `from` into `into`.
fn pour(from: HashMap<Uuid, Attachment>, into: &mut HashMap<Uuid, Attachment>)
    ensures
        views(final(into)@) == views(old(into)@).union_prefer_right(views(from@)),
{
    let mut from = from;
    let ghost from0 = views(from@);
    let ghost into0 = views(into@);
    let keys = keys_of(&from);
    let ghost mut done = Map::<Uuid, AttachmentView>::empty();
    assert(views(into@) =~= into0.union_prefer_right(done));
    let mut i: usize = 0;
    while i < keys.len()
        invariant
            i <= keys.len(),
            forall|k: Uuid|
                from@.contains_key(k) ==> exists|j: int|
                    i <= j < keys.len() && #[trigger] keys@[j] == k,
            forall|k: Uuid|
                #![trigger from@.contains_key(k)]
                from@.contains_key(k) ==> from0.contains_key(k) && from0[k] == from@[k]@,
            forall|k: Uuid|
                #![trigger done.contains_key(k)]
                done.contains_key(k) ==> from0.contains_key(k) && from0[k] == done[k],
            forall|k: Uuid|
                #![trigger from0.contains_key(k)]
                from0.contains_key(k) ==> from@.contains_key(k) || done.contains_key(k),
            views(into@) == into0.union_prefer_right(done),
        decreases keys.len() - i,
    {
        let k = keys[i];
        let ghost from_before = from@;
        let ghost into_before = into@;
        match from.remove(&k) {
            Some(a) => {
                let ghost moved = a@;
                assert(from_before.contains_key(k) && from_before[k] == a);
                into.insert(k, a);
                proof {
                    assert(views(into@) =~= views(into_before).insert(k, moved));
                    assert(views(into@) =~= into0.union_prefer_right(done.insert(k, moved)));
                    done = done.insert(k, moved);
                }
            },
            None => {},
        }
        i += 1;
    }
    proof {
        assert(done =~= from0);
    }
}

/// Takes every attachment out of `items`, so that all the attachments of
/// the vault stand alone in `pool`.
pub(crate) fn reclaim(
    items: HashMap<Uuid, Item>,
    pool: &mut HashMap<Uuid, Attachment>,
    Ghost(vault): Ghost<VaultView>,
)
    requires
        vault.wf(),
        vault.items == Some(views(items@)),
        vault.orphans == views(old(pool)@),
    ensures
        views(final(pool)@) == vault.attachments(),
{
    let mut items = items;
    let keys = keys_of(&items);
    let ghost mut now = vault;
    let mut i: usize = 0;
    while i < keys.len()
        invariant
            i <= keys.len(),
            forall|u: Uuid|
                items@.contains_key(u) ==> exists|j: int|
                    i <= j < keys.len() && #[trigger] keys@[j] == u,
            now.wf(),
            now.items == Some(views(items@)),
            now.orphans == views(pool@),
            now.attachments() == vault.attachments(),
        decreases keys.len() - i,
    {
        let u = keys[i];
        let ghost items_before = items@;
        match items.remove(&u) {
            Some(item) => {
                proof {
                    assert(items_before.contains_key(u) && items_before[u] == item);
                    assert(views(items_before).contains_key(u));
                    release(now, u);
                    assert(views(items@) =~= views(items_before).remove(u));
                }
                pour(item.attachments, pool);
                proof {
                    now = released(now, u);
                }
            },
            None => {},
        }
        i += 1;
    }
    proof {
        assert(items@ =~= Map::<Uuid, Item>::empty());
        assert(now.attachments() =~= now.orphans);
    }
}

/// The items of `records`, none of them with an attachment yet.
pub(crate) fn bare_items(records: Vec<ItemRecord>) -> (items: HashMap<Uuid, Item>)
    ensures
        views(items@) == materialize(records@, Map::empty()),
{
    let mut items: HashMap<Uuid, Item> = HashMap::new();
    let ghost all = records@;
    let ghost none = Map::<Uuid, AttachmentView>::empty();
    assert(views(items@) =~= materialize(all.take(0), none));
    for record in it: records
        invariant
            it.seq() == all,
            none == Map::<Uuid, AttachmentView>::empty(),
            views(items@) == materialize(all.take(it.index() as int), none),
    {
        let ghost n = it.index() as int;
        let ghost before = items@;
        let uuid = record.uuid;
        let item = Item { uuid, payload: record.payload, attachments: HashMap::new() };
        proof {
            assert(record == all[n]);
            assert(item@.attachments =~= owned_by(none, uuid));
            materialize_next(all, n, none);
        }
        items.insert(uuid, item);
        proof {
            assert(items@ == before.insert(uuid, item));
            assert(views(items@) =~= views(before).insert(uuid, item@));
        }
    }
    proof {
        assert(all.take(all.len() as int) =~= all);
    }
    items
}

/// Moves each attachment of `pool` into the item that it belongs to, and
/// hands back those that belong to none of the items.
pub(crate) fn adopt(
    items: &mut HashMap<Uuid, Item>,
    pool: HashMap<Uuid, Attachment>,
    Ghost(records): Ghost<Seq<ItemRecord>>,
) -> (orphans: HashMap<Uuid, Attachment>)
    requires
        views(old(items)@) == materialize(records, Map::empty()),
    ensures
        views(final(items)@) == materialize(records, views(pool@)),
        views(orphans@) == orphans_among(views(pool@), index(records).dom()),
{
    let mut pool = pool;
    let ghost pool0 = views(pool@);
    let ghost owners = index(records).dom();
    let keys = keys_of(&pool);
    let mut orphans: HashMap<Uuid, Attachment> = HashMap::new();
    let ghost mut done = Map::<Uuid, AttachmentView>::empty();
    assert(views(orphans@) =~= orphans_among(done, owners));
    let mut i: usize = 0;
    while i < keys.len()
        invariant
            i <= keys.len(),
            owners == index(records).dom(),
            forall|k: Uuid|
                pool@.contains_key(k) ==> exists|j: int|
                    i <= j < keys.len() && #[trigger] keys@[j] == k,
            forall|k: Uuid|
                #![trigger pool@.contains_key(k)]
                pool@.contains_key(k) ==> !done.contains_key(k) && pool0.contains_key(k)
                    && pool0[k] == pool@[k]@,
            forall|k: Uuid|
                #![trigger done.contains_key(k)]
                done.contains_key(k) ==> pool0.contains_key(k) && pool0[k] == done[k],
            forall|k: Uuid|
                #![trigger pool0.contains_key(k)]
                pool0.contains_key(k) ==> pool@.contains_key(k) || done.contains_key(k),
            views(items@) == materialize(records, done),
            views(orphans@) == orphans_among(done, owners),
        decreases keys.len() - i,
    {
        let k = keys[i];
        let ghost pool_before = pool@;
        let ghost items_before = items@;
        let ghost orphans_before = orphans@;
        match pool.remove(&k) {
            Some(a) => {
                let owner = a.item;
                let ghost moved = a@;
                assert(pool_before.contains_key(k) && pool_before[k] == a);
                match items.remove(&owner) {
                    Some(mut item) => {
                        let ghost held = item@.attachments;
                        item.attachments.insert(k, a);
                        proof {
                            assert(item@.attachments =~= held.insert(k, moved));
                        }
                        items.insert(owner, item);
                        proof {
                            assert(views(items_before).contains_key(owner));
                            assert(views(items_before)[owner] == items_before[owner]@);
                            joins_its_item(records, done, k, moved);
                            assert(views(items@) =~= views(items_before).insert(owner, item@));
                        }
                    },
                    None => {
                        orphans.insert(k, a);
                        proof {
                            assert(!views(items_before).contains_key(owner));
                            assert(items@ == items_before);
                            joins_the_orphans(records, done, k, moved);
                            assert(views(orphans@) =~= views(orphans_before).insert(k, moved));
                        }
                    },
                }
                proof {
                    done = done.insert(k, moved);
                }
            },
            None => {},
        }
        i += 1;
    }
    proof {
        assert(done =~= pool0);
    }
    orphans
}

} // verus!
