use vstd::prelude::*;
use std::collections::HashMap;
use crate::Uuid;
use crate::entities::{views, Attachment, Folder, Item, ItemRecord, Profile};
use crate::error::VaultError;
use crate::index::{index, index_by_uuid, index_holds_every_id};
use crate::integrity::{all_authentic, authenticate, first_forged, is_authentic, HmacKey};
use crate::model::{all_vouched, first_refused, loaded, loaded_is_well_formed, vouched, VaultView};
use crate::transfer::{adopt, bare_items, reclaim};

verus! {

/// A vault of one profile. It is made from the metadata that needs no
/// key, and holds no item until a keyed load has verified every one.
#[derive(Debug)]
pub struct Vault {
    profile: Profile,
    folders: HashMap<Uuid, Folder>,
    items: Option<HashMap<Uuid, Item>>,
    attachments: HashMap<Uuid, Attachment>,
}

impl View for Vault {
    type V = VaultView;

    closed spec fn view(&self) -> VaultView {
        VaultView {
            profile: self.profile@,
            folders: views(self.folders@),
            items: match self.items {
                Some(items) => Some(views(items@)),
                None => None,
            },
            orphans: views(self.attachments@),
        }
    }
}

impl Vault {
    #[verifier::type_invariant]
    spec fn inv(self) -> bool {
        self@.wf()
    }

    /// Makes a vault from what the three loaders of metadata returned. The
    /// first failure among them, in the order profile, folders,
    /// attachments, is the failure of the whole; otherwise the vault holds
    /// the profile, the folders and the attachments by identifier, and no
    /// items.
    pub fn new(
        profile: Result<Profile, VaultError>,
        folders: Result<Vec<Folder>, VaultError>,
        attachments: Result<Vec<Attachment>, VaultError>,
    ) -> (r: Result<Vault, VaultError>)
        ensures
            match (profile, folders, attachments) {
                (Err(e), _, _) => r == Err::<Vault, VaultError>(e),
                (Ok(_), Err(e), _) => r == Err::<Vault, VaultError>(e),
                (Ok(_), Ok(_), Err(e)) => r == Err::<Vault, VaultError>(e),
                (Ok(p), Ok(f), Ok(a)) => {
                    &&& r is Ok
                    &&& r->Ok_0@ == (VaultView {
                        profile: p@,
                        folders: views(index(f@)),
                        items: None,
                        orphans: views(index(a@)),
                    })
                    &&& r->Ok_0@.wf()
                },
            },
    {
        let profile = match profile {
            Ok(p) => p,
            Err(e) => {
                return Err(e);
            },
        };
        let folders = match folders {
            Ok(f) => f,
            Err(e) => {
                return Err(e);
            },
        };
        let attachments = match attachments {
            Ok(a) => a,
            Err(e) => {
                return Err(e);
            },
        };
        proof {
            index_holds_every_id(folders@);
            index_holds_every_id(attachments@);
        }
        let folders = index_by_uuid(folders);
        let attachments = index_by_uuid(attachments);
        Ok(Vault { profile, folders, items: None, attachments })
    }

    /// Installs the items of `records`, given for each record whether its
    /// tag was found to match. All or nothing: if one record was not found
    /// authentic, the call fails with the identifier of the first such
    /// record and the vault is as it was. Otherwise the items replace the
    /// ones held before, and every attachment of the vault, whether it
    /// stood alone or was held by an earlier item, moves into the item
    /// that it belongs to, or stands alone where it belongs to none. The
    /// caller answers for the verdicts: `read_items` computes them.
    pub fn install_items(&mut self, records: Vec<ItemRecord>, verdicts: &Vec<bool>) -> (r:
        Result<(), VaultError>)
        ensures
            r is Ok <==> all_vouched(verdicts@, records@.len() as int),
            r is Ok ==> final(self)@ == loaded(old(self)@, records@),
            r is Err ==> final(self)@ == old(self)@,
            forall|i: int| #[trigger]
                first_refused(verdicts@, records@.len() as int, i) ==> r == Err::<(), VaultError>(
                    VaultError::Integrity(records@[i].uuid),
                ),
            final(self)@.wf(),
    {
        proof {
            use_type_invariant(&*self);
        }
        let mut i: usize = 0;
        while i < records.len()
            invariant
                i <= records.len(),
                all_vouched(verdicts@, i as int),
                *self == *old(self),
                self@.wf(),
            decreases records.len() - i,
        {
            if !(i < verdicts.len() && verdicts[i]) {
                proof {
                    assert(!vouched(verdicts@, i as int));
                    assert forall|j: int|
                        first_refused(verdicts@, records@.len() as int, j) implies j == i by {
                        if j < i {
                            assert(vouched(verdicts@, j));
                        } else if i < j {
                            assert(vouched(verdicts@, i as int));
                        }
                    }
                }
                return Err(VaultError::Integrity(records[i].uuid));
            }
            i += 1;
        }
        let ghost before = self@;
        let ghost all = records@;
        let mut held: Option<HashMap<Uuid, Item>> = None;
        std::mem::swap(&mut self.items, &mut held);
        let mut pool: HashMap<Uuid, Attachment> = HashMap::new();
        std::mem::swap(&mut self.attachments, &mut pool);
        match held {
            Some(held) => {
                reclaim(held, &mut pool, Ghost(before));
            },
            None => {},
        }
        let mut items = bare_items(records);
        let orphans = adopt(&mut items, pool, Ghost(all));
        proof {
            loaded_is_well_formed(before, all);
        }
        self.attachments = orphans;
        self.items = Some(items);
        Ok(())
    }

    /// Loads under `key` the item records that the loader of items
    /// returned. A failure of the loader is the failure of the call. All
    /// or nothing: if the stored tag of one record is not the tag of its
    /// signed bytes under `key`, the call fails with the identifier of the
    /// first such record. After a failure the vault is as it was.
    /// Otherwise the items replace the ones held before, and every
    /// attachment of the vault, whether it stood alone or was held by an
    /// earlier item, moves into the item that it belongs to, or stands
    /// alone where it belongs to none.
    pub fn read_items(&mut self, records: Result<Vec<ItemRecord>, VaultError>, key: &HmacKey) -> (r:
        Result<(), VaultError>)
        ensures
            match records {
                Err(e) => r == Err::<(), VaultError>(e),
                Ok(records) => {
                    &&& r is Ok <==> all_authentic(records@, key@)
                    &&& r is Ok ==> final(self)@ == loaded(old(self)@, records@)
                    &&& forall|i: int| #[trigger]
                        first_forged(records@, key@, i) ==> r == Err::<(), VaultError>(
                            VaultError::Integrity(records@[i].uuid),
                        )
                },
            },
            r is Err ==> final(self)@ == old(self)@,
            final(self)@.wf(),
    {
        let records = match records {
            Ok(records) => records,
            Err(e) => {
                proof {
                    use_type_invariant(&*self);
                }
                return Err(e);
            },
        };
        let verdicts = authenticate(&records, key);
        proof {
            let n = records@.len() as int;
            assert forall|i: int| 0 <= i < n implies vouched(verdicts@, i) == is_authentic(
                #[trigger] records@[i]@,
                key@,
            ) by {}
            assert forall|i: int| #[trigger]
                first_forged(records@, key@, i) implies first_refused(verdicts@, n, i) by {
                assert forall|j: int| 0 <= j < i implies vouched(verdicts@, j) by {
                    assert(is_authentic(records@[j]@, key@));
                }
            }
            if all_vouched(verdicts@, n) {
                assert forall|i: int| 0 <= i < n implies is_authentic(
                    #[trigger] records@[i]@,
                    key@,
                ) by {
                    assert(vouched(verdicts@, i));
                }
            }
            if all_authentic(records@, key@) {
                assert forall|i: int| 0 <= i < n implies vouched(verdicts@, i) by {
                    assert(is_authentic(records@[i]@, key@));
                }
            }
        }
        self.install_items(records, &verdicts)
    }

    /// The profile.
    pub fn profile(&self) -> (profile: &Profile)
        ensures
            profile@ == self@.profile,
            self@.wf(),
    {
        proof {
            use_type_invariant(self);
        }
        &self.profile
    }

    /// The folders, by identifier.
    pub fn folders(&self) -> (folders: &HashMap<Uuid, Folder>)
        ensures
            views(folders@) == self@.folders,
            self@.wf(),
    {
        proof {
            use_type_invariant(self);
        }
        &self.folders
    }

    /// The items, by identifier, once a keyed load has succeeded.
    pub fn items(&self) -> (items: Option<&HashMap<Uuid, Item>>)
        ensures
            match items {
                Some(items) => self@.items == Some(views(items@)),
                None => self@.items is None,
            },
            self@.wf(),
    {
        proof {
            use_type_invariant(self);
        }
        match &self.items {
            Some(items) => Some(items),
            None => None,
        }
    }

    /// The attachments that no loaded item owns, by identifier.
    pub fn orphans(&self) -> (orphans: &HashMap<Uuid, Attachment>)
        ensures
            views(orphans@) == self@.orphans,
            self@.wf(),
    {
        proof {
            use_type_invariant(self);
        }
        &self.attachments
    }
}

} // verus!
