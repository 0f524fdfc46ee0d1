use vstd::prelude::*;
use std::collections::HashMap;
use crate::Uuid;

verus! {

/// A mapping of records, each taken by its view.
pub open spec fn views<T: View>(records: Map<Uuid, T>) -> Map<Uuid, T::V> {
    records.map_values(|record: T| record@)
}

/// Non-secret metadata of a vault: what is shown to the user, how the
/// working keys are derived, and the two key blobs in their encrypted form.
#[derive(Debug, Clone, PartialEq, Eq)]
pub struct Profile {
    pub hint: String,
    pub salt: Vec<u8>,
    pub iterations: u32,
    pub master_key: Vec<u8>,
    pub overview_key: Vec<u8>,
}

/// What a [`Profile`] holds.
pub struct ProfileView {
    pub hint: Seq<char>,
    pub salt: Seq<u8>,
    pub iterations: u32,
    pub master_key: Seq<u8>,
    pub overview_key: Seq<u8>,
}

impl View for Profile {
    type V = ProfileView;

    open spec fn view(&self) -> ProfileView {
        ProfileView {
            hint: self.hint@,
            salt: self.salt@,
            iterations: self.iterations,
            master_key: self.master_key@,
            overview_key: self.overview_key@,
        }
    }
}

/// A folder: its identifier and its encrypted overview.
#[derive(Debug, Clone, PartialEq, Eq)]
pub struct Folder {
    pub uuid: Uuid,
    pub overview: Vec<u8>,
}

/// What a [`Folder`] holds.
pub struct FolderView {
    pub uuid: Uuid,
    pub overview: Seq<u8>,
}

impl View for Folder {
    type V = FolderView;

    open spec fn view(&self) -> FolderView {
        FolderView { uuid: self.uuid, overview: self.overview@ }
    }
}

/// An attachment: its identifier, the identifier of the item it belongs
/// to, and its encrypted payload.
#[derive(Debug, Clone, PartialEq, Eq)]
pub struct Attachment {
    pub uuid: Uuid,
    pub item: Uuid,
    pub payload: Vec<u8>,
}

/// What an [`Attachment`] holds.
pub struct AttachmentView {
    pub uuid: Uuid,
    pub item: Uuid,
    pub payload: Seq<u8>,
}

impl View for Attachment {
    type V = AttachmentView;

    open spec fn view(&self) -> AttachmentView {
        AttachmentView { uuid: self.uuid, item: self.item, payload: self.payload@ }
    }
}

/// An item as it is stored: its identifier, its encrypted payload, the
/// bytes that its authentication tag covers, and the stored tag.
#[derive(Debug, Clone, PartialEq, Eq)]
pub struct ItemRecord {
    pub uuid: Uuid,
    pub payload: Vec<u8>,
    pub signed: Vec<u8>,
    pub tag: Vec<u8>,
}

/// What an [`ItemRecord`] holds.
pub struct ItemRecordView {
    pub uuid: Uuid,
    pub payload: Seq<u8>,
    pub signed: Seq<u8>,
    pub tag: Seq<u8>,
}

impl View for ItemRecord {
    type V = ItemRecordView;

    open spec fn view(&self) -> ItemRecordView {
        ItemRecordView {
            uuid: self.uuid,
            payload: self.payload@,
            signed: self.signed@,
            tag: self.tag@,
        }
    }
}

/// An item whose tag has been verified, with the attachments that belong
/// to it, keyed by their identifiers.
#[derive(Debug, Clone, PartialEq, Eq)]
pub struct Item {
    pub uuid: Uuid,
    pub payload: Vec<u8>,
    pub attachments: HashMap<Uuid, Attachment>,
}

/// What an [`Item`] holds.
pub struct ItemView {
    pub uuid: Uuid,
    pub payload: Seq<u8>,
    pub attachments: Map<Uuid, AttachmentView>,
}

impl View for Item {
    type V = ItemView;

    open spec fn view(&self) -> ItemView {
        ItemView {
            uuid: self.uuid,
            payload: self.payload@,
            attachments: views(self.attachments@),
        }
    }
}

} // verus!
