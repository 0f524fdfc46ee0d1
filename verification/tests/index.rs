use opvault::entities::{Attachment, Folder, ItemRecord};
use opvault::index::{index_by_uuid, Keyed};

fn folder(uuid: u128, mark: u8) -> Folder {
    Folder { uuid, overview: vec![mark] }
}

#[test]
fn every_record_stands_under_its_identifier() {
    let by_id = index_by_uuid(vec![folder(3, 30), folder(1, 10), folder(2, 20)]);
    assert_eq!(by_id.len(), 3);
    assert_eq!(by_id.get(&1), Some(&folder(1, 10)));
    assert_eq!(by_id.get(&2), Some(&folder(2, 20)));
    assert_eq!(by_id.get(&3), Some(&folder(3, 30)));
    assert_eq!(by_id.get(&4), None);
}

#[test]
fn the_last_of_several_records_with_one_identifier_stands() {
    let by_id = index_by_uuid(vec![folder(1, 10), folder(2, 20), folder(1, 11), folder(1, 12)]);
    assert_eq!(by_id.len(), 2);
    assert_eq!(by_id.get(&1), Some(&folder(1, 12)));
    assert_eq!(by_id.get(&2), Some(&folder(2, 20)));
}

#[test]
fn no_records_give_an_empty_mapping() {
    let by_id = index_by_uuid(Vec::<Attachment>::new());
    assert!(by_id.is_empty());
}

#[test]
fn the_largest_identifier_is_a_key_like_any_other() {
    let by_id = index_by_uuid(vec![folder(u128::MAX, 1), folder(0, 2)]);
    assert_eq!(by_id.get(&u128::MAX), Some(&folder(u128::MAX, 1)));
    assert_eq!(by_id.get(&0), Some(&folder(0, 2)));
}

#[test]
fn each_kind_of_record_gives_its_own_identifier() {
    let f = Folder { uuid: 7, overview: Vec::new() };
    let a = Attachment { uuid: 8, item: 9, payload: Vec::new() };
    let r = ItemRecord { uuid: 10, payload: Vec::new(), signed: Vec::new(), tag: Vec::new() };
    assert_eq!(f.uuid(), 7);
    assert_eq!(a.uuid(), 8);
    assert_eq!(r.uuid(), 10);
}
