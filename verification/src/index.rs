use vstd::prelude::*;
use std::collections::HashMap;
use crate::Uuid;
use crate::entities::{Attachment, Folder, ItemRecord};

verus! {

/// A record that carries its own identifier.
pub trait Keyed {
    /// The identifier of the record.
    spec fn id(&self) -> Uuid;

    /// Reads the identifier of the record.
    fn uuid(&self) -> (u: Uuid)
        ensures
            u == self.id(),
    ;
}

impl Keyed for Folder {
    open spec fn id(&self) -> Uuid {
        self.uuid
    }

    fn uuid(&self) -> (u: Uuid) {
        self.uuid
    }
}

impl Keyed for Attachment {
    open spec fn id(&self) -> Uuid {
        self.uuid
    }

    fn uuid(&self) -> (u: Uuid) {
        self.uuid
    }
}

impl Keyed for ItemRecord {
    open spec fn id(&self) -> Uuid {
        self.uuid
    }

    fn uuid(&self) -> (u: Uuid) {
        self.uuid
    }
}

/// The mapping from identifier to record that a sequence of records
/// gives: where several records share an identifier, the last one stands.
pub open spec fn index<T: Keyed>(records: Seq<T>) -> Map<Uuid, T>
    decreases records.len(),
{
    if records.len() == 0 {
        Map::empty()
    } else {
        index(records.drop_last()).insert(records.last().id(), records.last())
    }
}

/// Whether no two records of the sequence share an identifier.
pub open spec fn distinct_ids<T: Keyed>(records: Seq<T>) -> bool {
    forall|i: int, j: int|
        0 <= i < j < records.len() ==> #[trigger] records[i].id() != #[trigger] records[j].id()
}

/// The mapping of a sequence of records has a finite set of keys.
pub proof fn index_is_finite<T: Keyed>(records: Seq<T>)
    ensures
        index(records).dom().finite(),
    decreases records.len(),
{
    if records.len() > 0 {
        index_is_finite(records.drop_last());
    }
}

/// An identifier is a key of the mapping exactly when some record of the
/// sequence carries it, and every record is found under its own
/// identifier.
pub proof fn index_holds_every_id<T: Keyed>(records: Seq<T>)
    ensures
        forall|i: int|
            0 <= i < records.len() ==> index(records).contains_key(#[trigger] records[i].id()),
        forall|u: Uuid|
            (#[trigger] index(records).contains_key(u)) ==> exists|i: int|
                0 <= i < records.len() && #[trigger] records[i].id() == u,
        forall|u: Uuid|
            (#[trigger] index(records).contains_key(u)) ==> index(records)[u].id() == u,
    decreases records.len(),
{
    if records.len() > 0 {
        let front = records.drop_last();
        let last = records.len() - 1;
        index_holds_every_id(front);
        assert forall|i: int| 0 <= i < records.len() implies index(records).contains_key(
            #[trigger] records[i].id(),
        ) by {
            if i < last {
                assert(index(front).contains_key(front[i].id()));
            }
        }
        assert forall|u: Uuid| (#[trigger] index(records).contains_key(u)) implies exists|i: int|
            0 <= i < records.len() && #[trigger] records[i].id() == u by {
            if u == records.last().id() {
                assert(records[last].id() == u);
            } else {
                assert(index(front).contains_key(u));
                let i = choose|i: int| 0 <= i < front.len() && #[trigger] front[i].id() == u;
                assert(records[i].id() == u);
            }
        }
        assert forall|u: Uuid| (#[trigger] index(records).contains_key(u)) implies index(
            records,
        )[u].id() == u by {
            if u != records.last().id() {
                assert(index(front).contains_key(u));
            }
        }
    }
}

/// Under an identifier stands the last record that carries it.
pub proof fn index_keeps_the_last<T: Keyed>(records: Seq<T>, i: int)
    requires
        0 <= i < records.len(),
        forall|j: int| i < j < records.len() ==> #[trigger] records[j].id() != records[i].id(),
    ensures
        index(records).contains_key(records[i].id()),
        index(records)[records[i].id()] == records[i],
    decreases records.len(),
{
    if i < records.len() - 1 {
        let front = records.drop_last();
        assert(records[records.len() - 1].id() != records[i].id());
        assert forall|j: int| i < j < front.len() implies #[trigger] front[j].id()
            != front[i].id() by {
            assert(records[j].id() != records[i].id());
        }
        index_keeps_the_last(front, i);
    }
}

/// Where no two records share an identifier, the mapping has one entry
/// for each record.
pub proof fn index_counts_distinct<T: Keyed>(records: Seq<T>)
    requires
        distinct_ids(records),
    ensures
        index(records).dom().finite(),
        index(records).dom().len() == records.len(),
    decreases records.len(),
{
    index_is_finite(records);
    if records.len() > 0 {
        let front = records.drop_last();
        assert(distinct_ids(front)) by {
            assert forall|i: int, j: int| 0 <= i < j < front.len() implies #[trigger] front[i].id()
                != #[trigger] front[j].id() by {
                assert(records[i].id() != records[j].id());
            }
        }
        index_counts_distinct(front);
        index_holds_every_id(front);
        if index(front).contains_key(records.last().id()) {
            let i = choose|i: int|
                0 <= i < front.len() && #[trigger] front[i].id() == records.last().id();
            assert(records[i].id() != records[records.len() - 1].id());
        }
    }
}

/// Builds the mapping of `records` by identifier.
pub fn index_by_uuid<T: Keyed>(records: Vec<T>) -> (by_id: HashMap<Uuid, T>)
    ensures
        by_id@ == index(records@),
{
    let mut by_id: HashMap<Uuid, T> = HashMap::new();
    let ghost all = records@;
    for record in it: records
        invariant
            it.seq() == all,
            by_id@ == index(all.take(it.index() as int)),
    {
        proof {
            let n = it.index() as int;
            assert(all.take(n + 1).drop_last() =~= all.take(n));
        }
        let u = record.uuid();
        by_id.insert(u, record);
    }
    proof {
        assert(all.take(all.len() as int) =~= all);
    }
    by_id
}

} // verus!
