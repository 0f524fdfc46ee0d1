use vstd::prelude::*;
use crate::Uuid;
use crate::entities::{AttachmentView, FolderView, ItemRecord, ItemView, ProfileView};
use crate::index::index;

verus! {

/// What a vault holds: the profile, the folders by identifier, the items
/// by identifier once a keyed load has succeeded, and the attachments that
/// no loaded item owns.
pub struct VaultView {
    pub profile: ProfileView,
    pub folders: Map<Uuid, FolderView>,
    pub items: Option<Map<Uuid, ItemView>>,
    pub orphans: Map<Uuid, AttachmentView>,
}

/// The attachments of `pool` that belong to `item`.
pub open spec fn owned_by(pool: Map<Uuid, AttachmentView>, item: Uuid) -> Map<
    Uuid,
    AttachmentView,
> {
    Map::new(|k: Uuid| pool.contains_key(k) && pool[k].item == item, |k: Uuid| pool[k])
}

/// The attachments of `pool` that belong to none of `items`.
pub open spec fn orphans_among(pool: Map<Uuid, AttachmentView>, items: Set<Uuid>) -> Map<
    Uuid,
    AttachmentView,
> {
    Map::new(|k: Uuid| pool.contains_key(k) && !items.contains(pool[k].item), |k: Uuid| pool[k])
}

/// The items that `records` give, each with the attachments of `pool`
/// that belong to it.
pub open spec fn materialize(records: Seq<ItemRecord>, pool: Map<Uuid, AttachmentView>) -> Map<
    Uuid,
    ItemView,
> {
    Map::new(
        |u: Uuid| index(records).contains_key(u),
        |u: Uuid|
            ItemView {
                uuid: u,
                payload: index(records)[u].payload@,
                attachments: owned_by(pool, u),
            },
    )
}

/// Whether item `u` of `items` holds an attachment under `k`.
pub open spec fn holds(items: Map<Uuid, ItemView>, u: Uuid, k: Uuid) -> bool {
    items.contains_key(u) && items[u].attachments.contains_key(k)
}

/// The vault after a keyed load of `records` has succeeded: the items are
/// those of `records`, and every attachment of the vault, wherever it
/// was held before, is in the one of them that it belongs to, or stands
/// alone where it belongs to none.
pub open spec fn loaded(vault: VaultView, records: Seq<ItemRecord>) -> VaultView {
    VaultView {
        profile: vault.profile,
        folders: vault.folders,
        items: Some(materialize(records, vault.attachments())),
        orphans: orphans_among(vault.attachments(), index(records).dom()),
    }
}

/// The vault without item `u`, whose attachments stand alone instead.
pub open spec fn released(vault: VaultView, u: Uuid) -> VaultView {
    VaultView {
        profile: vault.profile,
        folders: vault.folders,
        items: Some(vault.items->Some_0.remove(u)),
        orphans: vault.orphans.union_prefer_right(vault.items->Some_0[u].attachments),
    }
}

/// Whether record `i` was found authentic. A record without a verdict
/// counts as not authentic.
pub open spec fn vouched(verdicts: Seq<bool>, i: int) -> bool {
    0 <= i < verdicts.len() && verdicts[i]
}

/// Whether each of the first `n` records was found authentic.
pub open spec fn all_vouched(verdicts: Seq<bool>, n: int) -> bool {
    forall|i: int| 0 <= i < n ==> vouched(verdicts, i)
}

/// Whether record `i` is the first of `n` records that was not found
/// authentic.
pub open spec fn first_refused(verdicts: Seq<bool>, n: int, i: int) -> bool {
    &&& 0 <= i < n
    &&& !vouched(verdicts, i)
    &&& all_vouched(verdicts, i)
}

impl VaultView {
    /// Every attachment of the vault by its identifier: those that stand
    /// alone, and those that the items hold.
    pub open spec fn attachments(self) -> Map<Uuid, AttachmentView> {
        match self.items {
            None => self.orphans,
            Some(items) => Map::new(
                |k: Uuid| self.orphans.contains_key(k) || exists|u: Uuid| holds(items, u, k),
                |k: Uuid|
                    if self.orphans.contains_key(k) {
                        self.orphans[k]
                    } else {
                        items[choose|u: Uuid| holds(items, u, k)].attachments[k]
                    },
            ),
        }
    }

    /// Every record stands under its own identifier; an attachment inside
    /// an item belongs to that item and is held by no other; an attachment
    /// that stands alone belongs to no loaded item and is held by none.
    pub open spec fn wf(self) -> bool {
        &&& forall|u: Uuid|
            (#[trigger] self.folders.contains_key(u)) ==> self.folders[u].uuid == u
        &&& forall|k: Uuid|
            (#[trigger] self.orphans.contains_key(k)) ==> self.orphans[k].uuid == k
        &&& match self.items {
            None => true,
            Some(items) => {
                &&& forall|u: Uuid| (#[trigger] items.contains_key(u)) ==> items[u].uuid == u
                &&& forall|u: Uuid, k: Uuid| #[trigger]
                    holds(items, u, k) ==> {
                        &&& items[u].attachments[k].uuid == k
                        &&& items[u].attachments[k].item == u
                        &&& !self.orphans.contains_key(k)
                    }
                &&& forall|u: Uuid, w: Uuid, k: Uuid|
                    #[trigger] holds(items, u, k) && #[trigger] holds(items, w, k) ==> u == w
                &&& forall|k: Uuid|
                    (#[trigger] self.orphans.contains_key(k)) ==> !items.contains_key(
                        self.orphans[k].item,
                    )
            },
        }
    }
}

/// In a well-formed vault every attachment stands under its own
/// identifier, and one that an item holds is found through that item.
pub proof fn attachments_are_keyed(vault: VaultView)
    requires
        vault.wf(),
    ensures
        forall|k: Uuid|
            (#[trigger] vault.attachments().contains_key(k)) ==> vault.attachments()[k].uuid == k,
        forall|u: Uuid, k: Uuid|
            vault.items is Some && #[trigger] holds(vault.items->Some_0, u, k) ==> {
                &&& vault.attachments().contains_key(k)
                &&& vault.attachments()[k] == vault.items->Some_0[u].attachments[k]
            },
        forall|k: Uuid|
            (#[trigger] vault.orphans.contains_key(k)) ==> {
                &&& vault.attachments().contains_key(k)
                &&& vault.attachments()[k] == vault.orphans[k]
            },
{
    if let Some(items) = vault.items {
        assert forall|u: Uuid, k: Uuid| #[trigger] holds(items, u, k) implies {
            &&& vault.attachments().contains_key(k)
            &&& vault.attachments()[k] == items[u].attachments[k]
        } by {
            let w = choose|w: Uuid| holds(items, w, k);
            assert(holds(items, w, k));
            assert(u == w);
        }
        assert forall|k: Uuid| (#[trigger] vault.attachments().contains_key(k)) implies vault.attachments()[k].uuid
            == k by {
            if !vault.orphans.contains_key(k) {
                let w = choose|w: Uuid| holds(items, w, k);
                assert(holds(items, w, k));
            }
        }
    }
}

/// A keyed load that succeeds leaves the vault well formed.
pub proof fn loaded_is_well_formed(vault: VaultView, records: Seq<ItemRecord>)
    requires
        vault.wf(),
    ensures
        loaded(vault, records).wf(),
{
    let after = loaded(vault, records);
    let pool = vault.attachments();
    let items = materialize(records, pool);
    attachments_are_keyed(vault);
    assert forall|u: Uuid, k: Uuid| #[trigger] holds(items, u, k) implies {
        &&& items[u].attachments[k].uuid == k
        &&& items[u].attachments[k].item == u
        &&& !after.orphans.contains_key(k)
    } by {
        assert(pool.contains_key(k));
    }
    assert forall|k: Uuid| (#[trigger] after.orphans.contains_key(k)) implies !items.contains_key(
        after.orphans[k].item,
    ) by {
        assert(pool.contains_key(k));
    }
    assert forall|k: Uuid| (#[trigger] after.orphans.contains_key(k)) implies after.orphans[k].uuid
        == k by {
        assert(pool.contains_key(k));
    }
}

} // verus!
