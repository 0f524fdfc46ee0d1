use vstd::prelude::*;
use hmac::{Hmac, Mac};
use sha2::Sha256;
use crate::entities::{ItemRecord, ItemRecordView};

verus! {

/// The secret under which item tags are verified: 32 bytes, supplied by
/// the caller and never stored in a vault.
#[derive(Clone)]
pub struct HmacKey {
    bytes: [u8; 32],
}

impl View for HmacKey {
    type V = Seq<u8>;

    closed spec fn view(&self) -> Seq<u8> {
        self.bytes@
    }
}

impl HmacKey {
    /// Wraps the 32 bytes of a key.
    pub fn new(bytes: [u8; 32]) -> (key: HmacKey)
        ensures
            key@ == bytes@,
    {
        HmacKey { bytes }
    }
}

/// The HMAC-SHA256 authentication tag of `data` under `key`, as the `hmac`
/// and `sha2` crates compute it.
pub uninterp spec fn keyed_tag(key: Seq<u8>, data: Seq<u8>) -> Seq<u8>;

/// Runs `Hmac::<Sha256>` of the `hmac` crate over `signed`: the state is
/// made by `Mac::new_from_slice` from `key`, fed by `Mac::update`, and
/// compared with `tag` by `Mac::verify_slice`, which takes the same time
/// whatever the tag holds. The contract claims that the answer is `true`
/// exactly when `tag` is the tag of `signed` under `key`. `new_from_slice`
/// accepts a key of every length, so its error never comes.
#[verifier::external_body]
fn tag_is_valid(key: &[u8; 32], signed: &Vec<u8>, tag: &Vec<u8>) -> (ok: bool)
    ensures
        ok == (keyed_tag(key@, signed@) == tag@),
{
    match Hmac::<Sha256>::new_from_slice(key) {
        Ok(mut mac) => {
            mac.update(signed);
            mac.verify_slice(tag).is_ok()
        },
        Err(_) => false,
    }
}

/// Whether the stored tag of `record` is the tag of its signed bytes
/// under `key`.
pub open spec fn is_authentic(record: ItemRecordView, key: Seq<u8>) -> bool {
    keyed_tag(key, record.signed) == record.tag
}

/// Whether every record is authentic under `key`.
pub open spec fn all_authentic(records: Seq<ItemRecord>, key: Seq<u8>) -> bool {
    forall|i: int| 0 <= i < records.len() ==> is_authentic(#[trigger] records[i]@, key)
}

/// Whether record `i` is the first that is not authentic under `key`.
pub open spec fn first_forged(records: Seq<ItemRecord>, key: Seq<u8>, i: int) -> bool {
    &&& 0 <= i < records.len()
    &&& !is_authentic(records[i]@, key)
    &&& forall|j: int| 0 <= j < i ==> is_authentic(#[trigger] records[j]@, key)
}

/// For each record, in order, whether it is authentic under `key`.
pub open spec fn verdicts_under(records: Seq<ItemRecord>, key: Seq<u8>) -> Seq<bool> {
    Seq::new(records.len(), |i: int| is_authentic(records[i]@, key))
}

/// Checks the tag of every record under `key`.
pub fn authenticate(records: &Vec<ItemRecord>, key: &HmacKey) -> (verdicts: Vec<bool>)
    ensures
        verdicts@ == verdicts_under(records@, key@),
{
    let mut verdicts: Vec<bool> = Vec::new();
    let mut i: usize = 0;
    while i < records.len()
        invariant
            i <= records.len(),
            verdicts@ == verdicts_under(records@.take(i as int), key@),
        decreases records.len() - i,
    {
        let record = &records[i];
        let ok = tag_is_valid(&key.bytes, &record.signed, &record.tag);
        verdicts.push(ok);
        assert(verdicts@ =~= verdicts_under(records@.take(i + 1), key@));
        i += 1;
    }
    assert(records@.take(i as int) =~= records@);
    verdicts
}

} // verus!
