use vstd::prelude::*;
use crate::Uuid;
use crate::entities::ItemRecord;
use crate::index::{
    distinct_ids, index, index_counts_distinct, index_holds_every_id, index_keeps_the_last, Keyed,
};
use crate::model::{holds, loaded, VaultView};

verus! {

/// After a keyed load the vault holds items, one under the identifier of
/// each record and none under any other identifier; the payload of an item
/// is that of the last record with its identifier; and where no two
/// records share an identifier, there are as many items as records.
pub proof fn one_item_for_each_record(vault: VaultView, records: Seq<ItemRecord>)
    ensures
        loaded(vault, records).items is Some,
        forall|i: int|
            0 <= i < records.len() ==> loaded(vault, records).items->Some_0.contains_key(
                #[trigger] records[i].uuid,
            ),
        forall|u: Uuid|
            (#[trigger] loaded(vault, records).items->Some_0.contains_key(u)) ==> exists|i: int|
                0 <= i < records.len() && #[trigger] records[i].uuid == u,
        forall|i: int|
            0 <= i < records.len() && (forall|j: int|
                i < j < records.len() ==> #[trigger] records[j].uuid != records[i].uuid) ==> (
            #[trigger] loaded(vault, records).items->Some_0[records[i].uuid]).payload
                == records[i].payload@,
        distinct_ids(records) ==> loaded(vault, records).items->Some_0.dom().finite() && loaded(
            vault,
            records,
        ).items->Some_0.dom().len() == records.len(),
{
    let items = loaded(vault, records).items->Some_0;
    index_holds_every_id(records);
    assert(items.dom() =~= index(records).dom());
    assert forall|i: int| 0 <= i < records.len() implies items.contains_key(
        #[trigger] records[i].uuid,
    ) by {
        assert(index(records).contains_key(records[i].id()));
    }
    assert forall|u: Uuid| (#[trigger] items.contains_key(u)) implies exists|i: int|
        0 <= i < records.len() && #[trigger] records[i].uuid == u by {
        assert(index(records).contains_key(u));
        let i = choose|i: int| 0 <= i < records.len() && #[trigger] records[i].id() == u;
        assert(records[i].uuid == u);
    }
    assert forall|i: int|
        0 <= i < records.len() && (forall|j: int|
            i < j < records.len() ==> #[trigger] records[j].uuid != records[i].uuid) implies (
    #[trigger] items[records[i].uuid]).payload == records[i].payload@ by {
        assert forall|j: int| i < j < records.len() implies #[trigger] records[j].id()
            != records[i].id() by {
            assert(records[j].uuid != records[i].uuid);
        }
        index_keeps_the_last(records, i);
    }
    if distinct_ids(records) {
        index_counts_distinct(records);
    }
}

/// Every attachment of a vault has exactly one place after a keyed load.
/// Where it belongs to a loaded item, it is in the attachments of that
/// item, in those of no other item, and does not stand alone; where it
/// belongs to none, it stands alone and is in the attachments of no item.
pub proof fn every_attachment_has_one_place(vault: VaultView, records: Seq<ItemRecord>, k: Uuid)
    requires
        vault.attachments().contains_key(k),
    ensures
        ({
            let a = vault.attachments()[k];
            let after = loaded(vault, records);
            let items = after.items->Some_0;
            if items.contains_key(a.item) {
                &&& holds(items, a.item, k)
                &&& items[a.item].attachments[k] == a
                &&& !after.orphans.contains_key(k)
                &&& forall|u: Uuid| u != a.item ==> !#[trigger] holds(items, u, k)
            } else {
                &&& after.orphans.contains_key(k)
                &&& after.orphans[k] == a
                &&& forall|u: Uuid| !#[trigger] holds(items, u, k)
            }
        }),
{
}

/// A keyed load neither drops an attachment nor makes one: the vault
/// holds the same attachments after it as before.
pub proof fn load_keeps_every_attachment(vault: VaultView, records: Seq<ItemRecord>)
    requires
        vault.wf(),
    ensures
        loaded(vault, records).attachments() == vault.attachments(),
{
    let pool = vault.attachments();
    let after = loaded(vault, records);
    let items = after.items->Some_0;
    assert forall|k: Uuid| pool.contains_key(k) implies after.attachments().contains_key(k)
        && after.attachments()[k] == pool[k] by {
        every_attachment_has_one_place(vault, records, k);
        if items.contains_key(pool[k].item) {
            let w = choose|w: Uuid| holds(items, w, k);
            assert(holds(items, pool[k].item, k));
            assert(holds(items, w, k));
        }
    }
    assert forall|k: Uuid| after.attachments().contains_key(k) implies pool.contains_key(k) by {
        if !after.orphans.contains_key(k) {
            let w = choose|w: Uuid| holds(items, w, k);
            assert(holds(items, w, k));
        }
    }
    assert(after.attachments() =~= pool);
}

/// Two successive keyed loads of the same records give the same vault
/// as one.
pub proof fn successive_loads_agree(vault: VaultView, records: Seq<ItemRecord>)
    requires
        vault.wf(),
    ensures
        loaded(loaded(vault, records), records) == loaded(vault, records),
{
    load_keeps_every_attachment(vault, records);
}

} // verus!
