use std::collections::HashMap;

use opvault::entities::{Attachment, Folder, Item, ItemRecord, Profile};
use opvault::error::VaultError;
use opvault::integrity::HmacKey;
use opvault::vault::Vault;
use opvault::{DEFAULT_PROFILE, FOLDERS_FILE, PROFILE_FILE};

const F1: u128 = 0x0f10_0000_0000_0000_0000_0000_0000_0001;
const I1: u128 = 0x1111_1111_1111_1111_1111_1111_1111_1111;
const I2: u128 = 0x2222_2222_2222_2222_2222_2222_2222_2222;
const A1: u128 = 0xa1a1_a1a1_a1a1_a1a1_a1a1_a1a1_a1a1_a1a1;
const A2: u128 = 0xa2a2_a2a2_a2a2_a2a2_a2a2_a2a2_a2a2_a2a2;
const NOBODY: u128 = 0x9999;

const TAG_ONE: [u8; 32] = [
    202, 4, 223, 161, 79, 237, 148, 101, 88, 44, 79, 20, 151, 201, 184, 69, 143, 1, 21, 212, 88, 0,
    122, 131, 110, 181, 155, 137, 188, 254, 176, 32,
];

const TAG_TWO: [u8; 32] = [
    12, 67, 229, 195, 232, 172, 76, 217, 138, 172, 131, 106, 193, 0, 8, 189, 172, 198, 127, 131, 3,
    53, 152, 251, 243, 4, 57, 181, 219, 119, 191, 178,
];

fn key() -> HmacKey {
    let mut bytes = [0u8; 32];
    for (i, b) in bytes.iter_mut().enumerate() {
        *b = i as u8;
    }
    HmacKey::new(bytes)
}

fn profile() -> Profile {
    Profile {
        hint: String::from("test"),
        salt: vec![7; 16],
        iterations: 50_000,
        master_key: vec![1, 2, 3, 4],
        overview_key: vec![5, 6, 7, 8],
    }
}

fn folder(uuid: u128) -> Folder {
    Folder { uuid, overview: vec![0xf0, 0x0d] }
}

fn attachment(uuid: u128, item: u128) -> Attachment {
    Attachment { uuid, item, payload: vec![0xaa, (uuid & 0xff) as u8] }
}

fn item_one() -> ItemRecord {
    ItemRecord { uuid: I1, payload: vec![10, 11], signed: b"item-one".to_vec(), tag: TAG_ONE.to_vec() }
}

fn item_two() -> ItemRecord {
    ItemRecord { uuid: I2, payload: vec![20, 21], signed: b"item-two".to_vec(), tag: TAG_TWO.to_vec() }
}

fn open(attachments: Vec<Attachment>) -> Vault {
    Vault::new(Ok(profile()), Ok(vec![folder(F1)]), Ok(attachments)).expect("well-formed metadata")
}

fn bare(uuid: u128, payload: Vec<u8>) -> Item {
    Item { uuid, payload, attachments: HashMap::new() }
}

#[test]
fn construction_holds_metadata_and_no_items() {
    let vault = open(vec![attachment(A1, I1)]);
    assert!(vault.items().is_none());
    assert_eq!(vault.profile(), &profile());
    assert_eq!(vault.profile().hint, "test");
    assert_eq!(vault.folders().len(), 1);
    assert_eq!(vault.folders().get(&F1), Some(&folder(F1)));
    assert_eq!(vault.orphans().len(), 1);
    assert_eq!(vault.orphans().get(&A1), Some(&attachment(A1, I1)));
}

#[test]
fn construction_of_an_empty_vault() {
    let vault = Vault::new(Ok(profile()), Ok(Vec::new()), Ok(Vec::new())).expect("empty is fine");
    assert!(vault.items().is_none());
    assert!(vault.folders().is_empty());
    assert!(vault.orphans().is_empty());
}

#[test]
fn construction_fails_with_the_failure_of_the_profile() {
    let r = Vault::new(
        Err(VaultError::Format(String::from("profile.js"))),
        Err(VaultError::Format(String::from("folders.js"))),
        Err(VaultError::Io(String::from("default"))),
    );
    assert_eq!(r.err(), Some(VaultError::Format(String::from("profile.js"))));
}

#[test]
fn construction_fails_with_the_failure_of_the_folders() {
    let r = Vault::new(
        Ok(profile()),
        Err(VaultError::Format(String::from("folders.js"))),
        Err(VaultError::Io(String::from("default"))),
    );
    assert_eq!(r.err(), Some(VaultError::Format(String::from("folders.js"))));
}

#[test]
fn construction_fails_with_the_failure_of_the_attachments() {
    let r = Vault::new(
        Ok(profile()),
        Ok(vec![folder(F1)]),
        Err(VaultError::Io(String::from("default"))),
    );
    assert_eq!(r.err(), Some(VaultError::Io(String::from("default"))));
}

#[test]
fn construction_passes_any_failure_on() {
    let r = Vault::new(Err(VaultError::Integrity(I1)), Ok(Vec::new()), Ok(Vec::new()));
    assert_eq!(r.err(), Some(VaultError::Integrity(I1)));
}

#[test]
fn a_later_folder_replaces_an_earlier_one_with_its_identifier() {
    let first = Folder { uuid: F1, overview: vec![1] };
    let second = Folder { uuid: F1, overview: vec![2] };
    let vault = Vault::new(Ok(profile()), Ok(vec![first, second.clone()]), Ok(Vec::new()))
        .expect("well-formed metadata");
    assert_eq!(vault.folders().len(), 1);
    assert_eq!(vault.folders().get(&F1), Some(&second));
}

#[test]
fn two_items_and_one_attachment_load_under_the_right_key() {
    let mut vault = open(vec![attachment(A1, I1)]);
    assert_eq!(vault.read_items(Ok(vec![item_one(), item_two()]), &key()), Ok(()));

    assert_eq!(vault.folders().len(), 1);
    assert!(vault.folders().contains_key(&F1));

    let items = vault.items().expect("items are loaded");
    assert_eq!(items.len(), 2);
    let one = items.get(&I1).expect("the first item");
    let two = items.get(&I2).expect("the second item");
    assert_eq!(one.uuid, I1);
    assert_eq!(one.payload, vec![10, 11]);
    assert_eq!(one.attachments.len(), 1);
    assert_eq!(one.attachments.get(&A1), Some(&attachment(A1, I1)));
    assert_eq!(two, &bare(I2, vec![20, 21]));
    assert!(vault.orphans().is_empty());
}

#[test]
fn one_flipped_byte_in_a_tag_fails_the_whole_load() {
    let mut vault = open(vec![attachment(A1, I1)]);
    let mut tampered = item_one();
    tampered.tag[0] ^= 0x01;
    let r = vault.read_items(Ok(vec![tampered, item_two()]), &key());
    assert_eq!(r, Err(VaultError::Integrity(I1)));
    assert!(vault.items().is_none());
    assert_eq!(vault.orphans().len(), 1);
    assert_eq!(vault.orphans().get(&A1), Some(&attachment(A1, I1)));
}

#[test]
fn the_first_record_that_fails_is_named() {
    let mut vault = open(Vec::new());
    let mut bad_one = item_one();
    bad_one.tag[5] ^= 0x80;
    let mut bad_two = item_two();
    bad_two.signed.push(0);
    let r = vault.read_items(Ok(vec![item_one(), bad_two.clone(), bad_one.clone()]), &key());
    assert_eq!(r, Err(VaultError::Integrity(I2)));
    let r = vault.read_items(Ok(vec![bad_one, bad_two]), &key());
    assert_eq!(r, Err(VaultError::Integrity(I1)));
    assert!(vault.items().is_none());
}

#[test]
fn a_wrong_key_leaves_absent_items_absent() {
    let mut vault = open(vec![attachment(A1, I1)]);
    let r = vault.read_items(Ok(vec![item_one(), item_two()]), &HmacKey::new([0u8; 32]));
    assert_eq!(r, Err(VaultError::Integrity(I1)));
    assert!(vault.items().is_none());
    assert_eq!(vault.orphans().len(), 1);
}

#[test]
fn a_wrong_key_leaves_loaded_items_as_they_were() {
    let mut vault = open(vec![attachment(A1, I1), attachment(A2, NOBODY)]);
    assert_eq!(vault.read_items(Ok(vec![item_one()]), &key()), Ok(()));
    let items_before = vault.items().expect("items are loaded").clone();
    let orphans_before = vault.orphans().clone();

    let r = vault.read_items(Ok(vec![item_one(), item_two()]), &HmacKey::new([9u8; 32]));
    assert_eq!(r, Err(VaultError::Integrity(I1)));
    assert_eq!(vault.items(), Some(&items_before));
    assert_eq!(vault.orphans(), &orphans_before);
    assert_eq!(items_before.get(&I1).map(|i| i.attachments.len()), Some(1));
}

#[test]
fn an_attachment_of_no_item_stays_an_orphan() {
    let mut vault = open(vec![attachment(A1, I1), attachment(A2, NOBODY)]);
    assert_eq!(vault.read_items(Ok(vec![item_one(), item_two()]), &key()), Ok(()));
    let items = vault.items().expect("items are loaded");
    assert_eq!(items.get(&I1).map(|i| i.attachments.contains_key(&A1)), Some(true));
    assert_eq!(items.get(&I1).map(|i| i.attachments.contains_key(&A2)), Some(false));
    assert_eq!(items.get(&I2).map(|i| i.attachments.is_empty()), Some(true));
    assert_eq!(vault.orphans().len(), 1);
    assert_eq!(vault.orphans().get(&A2), Some(&attachment(A2, NOBODY)));
    assert!(!vault.orphans().contains_key(&A1));
}

#[test]
fn several_attachments_of_one_item_all_move_into_it() {
    let mut vault = open(vec![attachment(A1, I2), attachment(A2, I2)]);
    assert_eq!(vault.read_items(Ok(vec![item_one(), item_two()]), &key()), Ok(()));
    let items = vault.items().expect("items are loaded");
    let two = items.get(&I2).expect("the second item");
    assert_eq!(two.attachments.len(), 2);
    assert_eq!(two.attachments.get(&A1), Some(&attachment(A1, I2)));
    assert_eq!(two.attachments.get(&A2), Some(&attachment(A2, I2)));
    assert_eq!(items.get(&I1), Some(&bare(I1, vec![10, 11])));
    assert!(vault.orphans().is_empty());
}

#[test]
fn successive_loads_without_owned_attachments_agree() {
    let mut vault = open(vec![attachment(A2, NOBODY)]);
    assert_eq!(vault.read_items(Ok(vec![item_one(), item_two()]), &key()), Ok(()));
    let first = vault.items().expect("items are loaded").clone();
    assert_eq!(vault.read_items(Ok(vec![item_one(), item_two()]), &key()), Ok(()));
    assert_eq!(vault.items(), Some(&first));
    assert_eq!(vault.orphans().len(), 1);
}

#[test]
fn successive_loads_with_owned_attachments_agree() {
    let mut vault = open(vec![attachment(A1, I1), attachment(A2, NOBODY)]);
    assert_eq!(vault.read_items(Ok(vec![item_one(), item_two()]), &key()), Ok(()));
    let first = vault.items().expect("items are loaded").clone();
    let orphans = vault.orphans().clone();
    assert_eq!(first.get(&I1).map(|i| i.attachments.len()), Some(1));

    assert_eq!(vault.read_items(Ok(vec![item_one(), item_two()]), &key()), Ok(()));
    assert_eq!(vault.items(), Some(&first));
    assert_eq!(vault.orphans(), &orphans);

    assert_eq!(vault.read_items(Ok(vec![item_two(), item_one()]), &key()), Ok(()));
    assert_eq!(vault.items(), Some(&first));
    assert_eq!(vault.orphans(), &orphans);
}

#[test]
fn an_attachment_whose_item_is_gone_stands_alone_again() {
    let mut vault = open(vec![attachment(A1, I1), attachment(A2, I2)]);
    assert_eq!(vault.read_items(Ok(vec![item_one(), item_two()]), &key()), Ok(()));
    assert!(vault.orphans().is_empty());

    assert_eq!(vault.read_items(Ok(vec![item_two()]), &key()), Ok(()));
    let items = vault.items().expect("items are loaded");
    assert_eq!(items.len(), 1);
    assert_eq!(items.get(&I2).map(|i| i.attachments.len()), Some(1));
    assert_eq!(vault.orphans().len(), 1);
    assert_eq!(vault.orphans().get(&A1), Some(&attachment(A1, I1)));

    assert_eq!(vault.read_items(Ok(vec![item_one()]), &key()), Ok(()));
    let items = vault.items().expect("items are loaded");
    assert_eq!(items.get(&I1).map(|i| i.attachments.get(&A1).cloned()), Some(Some(attachment(A1, I1))));
    assert_eq!(vault.orphans().len(), 1);
    assert_eq!(vault.orphans().get(&A2), Some(&attachment(A2, I2)));
}

#[test]
fn a_failure_of_the_item_loader_is_passed_on() {
    let mut vault = open(vec![attachment(A1, I1)]);
    let r = vault.read_items(Err(VaultError::Format(String::from("band_0.js"))), &key());
    assert_eq!(r, Err(VaultError::Format(String::from("band_0.js"))));
    assert!(vault.items().is_none());

    assert_eq!(vault.read_items(Ok(vec![item_one()]), &key()), Ok(()));
    let before = vault.items().expect("items are loaded").clone();
    let r = vault.read_items(Err(VaultError::Io(String::from("default"))), &key());
    assert_eq!(r, Err(VaultError::Io(String::from("default"))));
    assert_eq!(vault.items(), Some(&before));
    assert!(vault.orphans().is_empty());
}

#[test]
fn a_load_of_no_records_gives_no_items() {
    let mut vault = open(vec![attachment(A1, I1)]);
    assert_eq!(vault.read_items(Ok(Vec::new()), &HmacKey::new([0u8; 32])), Ok(()));
    assert_eq!(vault.items().map(|items| items.len()), Some(0));
    assert_eq!(vault.orphans().len(), 1);
}

#[test]
fn a_later_record_replaces_an_earlier_one_with_its_identifier() {
    let mut vault = open(vec![attachment(A1, I1)]);
    let mut again = item_one();
    again.payload = vec![99];
    assert_eq!(vault.read_items(Ok(vec![item_one(), item_two(), again]), &key()), Ok(()));
    let items = vault.items().expect("items are loaded");
    assert_eq!(items.len(), 2);
    let one = items.get(&I1).expect("the first item");
    assert_eq!(one.payload, vec![99]);
    assert_eq!(one.attachments.len(), 1);
}

#[test]
fn a_replaced_record_is_checked_too() {
    let mut vault = open(Vec::new());
    let mut forged = item_one();
    forged.tag = vec![0; 32];
    let r = vault.read_items(Ok(vec![forged, item_one()]), &key());
    assert_eq!(r, Err(VaultError::Integrity(I1)));
    assert!(vault.items().is_none());
}

#[test]
fn a_new_load_replaces_the_items() {
    let mut vault = open(Vec::new());
    assert_eq!(vault.read_items(Ok(vec![item_one(), item_two()]), &key()), Ok(()));
    assert_eq!(vault.read_items(Ok(vec![item_two()]), &key()), Ok(()));
    let items = vault.items().expect("items are loaded");
    assert_eq!(items.len(), 1);
    assert!(items.contains_key(&I2));
}

#[test]
fn installing_with_all_verdicts_true_loads_the_items() {
    let mut vault = open(vec![attachment(A1, I1)]);
    let forged = ItemRecord { uuid: I1, payload: vec![1], signed: vec![2], tag: vec![3] };
    assert_eq!(vault.install_items(vec![forged], &vec![true]), Ok(()));
    let items = vault.items().expect("items are loaded");
    assert_eq!(items.get(&I1).map(|i| i.attachments.len()), Some(1));
    assert!(vault.orphans().is_empty());
}

#[test]
fn installing_fails_at_the_first_false_verdict() {
    let mut vault = open(vec![attachment(A1, I1)]);
    let r = vault.install_items(vec![item_one(), item_two()], &vec![true, false]);
    assert_eq!(r, Err(VaultError::Integrity(I2)));
    let r = vault.install_items(vec![item_one(), item_two()], &vec![false, false]);
    assert_eq!(r, Err(VaultError::Integrity(I1)));
    assert!(vault.items().is_none());
    assert_eq!(vault.orphans().len(), 1);
}

#[test]
fn a_record_without_a_verdict_is_refused() {
    let mut vault = open(Vec::new());
    let r = vault.install_items(vec![item_one(), item_two()], &vec![true]);
    assert_eq!(r, Err(VaultError::Integrity(I2)));
    let r = vault.install_items(vec![item_one()], &Vec::new());
    assert_eq!(r, Err(VaultError::Integrity(I1)));
    assert!(vault.items().is_none());
}

#[test]
fn verdicts_beyond_the_records_are_ignored() {
    let mut vault = open(Vec::new());
    assert_eq!(vault.install_items(vec![item_one()], &vec![true, false, false]), Ok(()));
    assert_eq!(vault.items().map(|items| items.len()), Some(1));
}

#[test]
fn the_profile_and_the_folders_outlast_every_load() {
    let mut vault = open(vec![attachment(A1, I1)]);
    assert_eq!(vault.read_items(Ok(vec![item_one()]), &key()), Ok(()));
    let _ = vault.read_items(Ok(vec![item_one()]), &HmacKey::new([1u8; 32]));
    assert_eq!(vault.profile(), &profile());
    assert_eq!(vault.folders().get(&F1), Some(&folder(F1)));
}

#[test]
fn the_names_in_a_vault_directory() {
    assert_eq!(DEFAULT_PROFILE, "default");
    assert_eq!(PROFILE_FILE, "profile.js");
    assert_eq!(FOLDERS_FILE, "folders.js");
}
