use std::collections::HashMap;
use vstd::prelude::*;
use vstd::std_specs::hash::spec_hash_map_iter;
use vstd::std_specs::iter::IteratorSpec;

use crate::dimension::Dimension;
use crate::error::HyperspaceError;
use crate::ids::{DimensionId, SmartObjectId};
use crate::object::SmartObject;
use crate::state::{object_ids, HyperspaceState};

verus! {

broadcast use vstd::std_specs::hash::group_hash_axioms;

/// A smart object as the store keeps it, with the dimension it belongs to.
#[derive(Debug, Clone)]
pub struct ObjectRecord {
    pub dimension_id: DimensionId,
    pub object: SmartObject,
}

impl ObjectRecord {
    /// A field-by-field copy.
    pub fn duplicate(&self) -> (r: Self)
        ensures
            r == *self,
    {
        ObjectRecord { dimension_id: self.dimension_id, object: self.object.duplicate() }
    }
}

/// The bucket that syncing `objects` into dimension `dimension_id` leaves: one record per
/// object identifier, a later object replacing an earlier one with the same identifier.
pub open spec fn synced_bucket(dimension_id: DimensionId, objects: Seq<SmartObject>) -> Map<SmartObjectId, ObjectRecord>
    decreases objects.len(),
{
    if objects.len() == 0 {
        Map::empty()
    } else {
        synced_bucket(dimension_id, objects.drop_last()).insert(
            objects.last().id,
            ObjectRecord { dimension_id, object: objects.last() },
        )
    }
}

/// The store's contents after syncing each of `dims` in turn into `start`.
pub open spec fn synced_all(start: Map<DimensionId, Map<SmartObjectId, ObjectRecord>>, dims: Seq<Dimension>) -> Map<DimensionId, Map<SmartObjectId, ObjectRecord>>
    decreases dims.len(),
{
    if dims.len() == 0 {
        start
    } else {
        synced_all(start, dims.drop_last()).insert(
            dims.last().id,
            synced_bucket(dims.last().id, dims.last().objects@),
        )
    }
}

/// Every record sits under its own object's identifier, in its own dimension's bucket.
pub open spec fn records_are_keyed(contents: Map<DimensionId, Map<SmartObjectId, ObjectRecord>>) -> bool {
    forall|d: DimensionId, k: SmartObjectId|
        #![trigger contents[d][k]]
        contents.contains_key(d) && contents[d].contains_key(k) ==> contents[d][k].object.id == k
            && contents[d][k].dimension_id == d
}

proof fn lemma_synced_bucket_keyed(dimension_id: DimensionId, objects: Seq<SmartObject>)
    ensures
        forall|k: SmartObjectId|
            #![trigger synced_bucket(dimension_id, objects)[k]]
            synced_bucket(dimension_id, objects).contains_key(k) ==> synced_bucket(
                dimension_id,
                objects,
            )[k].object.id == k && synced_bucket(dimension_id, objects)[k].dimension_id
                == dimension_id,
    decreases objects.len(),
{
    if objects.len() > 0 {
        lemma_synced_bucket_keyed(dimension_id, objects.drop_last());
    }
}

/// Syncing objects with distinct identifiers stores each of them, under its identifier
/// and with its dimension, and nothing else: a later read lists exactly these records.
pub proof fn lemma_synced_objects_are_stored(dimension_id: DimensionId, objects: Seq<SmartObject>)
    requires
        object_ids(objects).no_duplicates(),
    ensures
        synced_bucket(dimension_id, objects).dom().finite(),
        synced_bucket(dimension_id, objects).dom().len() == objects.len(),
        forall|i: int|
            0 <= i < objects.len() ==> synced_bucket(dimension_id, objects).contains_key(
                #[trigger] objects[i].id,
            ) && synced_bucket(dimension_id, objects)[objects[i].id] == (ObjectRecord {
                dimension_id,
                object: objects[i],
            }),
        forall|k: SmartObjectId|
            #[trigger] synced_bucket(dimension_id, objects).contains_key(k) ==> object_ids(
                objects,
            ).contains(k),
    decreases objects.len(),
{
    if objects.len() > 0 {
        let rest = objects.drop_last();
        assert(object_ids(rest) =~= object_ids(objects).drop_last());
        assert forall|a: int, b: int| 0 <= a < b < object_ids(rest).len() implies object_ids(rest)[a]
            != object_ids(rest)[b] by {
            assert(object_ids(objects)[a] != object_ids(objects)[b]);
        }
        lemma_synced_objects_are_stored(dimension_id, rest);
        let last = objects.last();
        let prev = synced_bucket(dimension_id, rest);
        if prev.contains_key(last.id) {
            let j = choose|j: int| 0 <= j < object_ids(rest).len() && object_ids(rest)[j] == last.id;
            assert(object_ids(objects)[j] == object_ids(objects)[objects.len() - 1]);
        }
        assert(prev.insert(last.id, ObjectRecord { dimension_id, object: last }).dom() == prev.dom().insert(
            last.id,
        ));
        assert forall|i: int| 0 <= i < objects.len() implies synced_bucket(
            dimension_id,
            objects,
        ).contains_key(#[trigger] objects[i].id) && synced_bucket(dimension_id, objects)[objects[i].id]
            == (ObjectRecord { dimension_id, object: objects[i] }) by {
            if i < objects.len() - 1 {
                assert(objects[i] == rest[i]);
                assert(object_ids(objects)[i] != object_ids(objects)[objects.len() - 1]);
            }
        }
        assert forall|k: SmartObjectId| #[trigger]
            synced_bucket(dimension_id, objects).contains_key(k) implies object_ids(objects).contains(k) by {
            if k == last.id {
                assert(object_ids(objects)[objects.len() - 1] == k);
            } else {
                let j = choose|j: int| 0 <= j < object_ids(rest).len() && object_ids(rest)[j] == k;
                assert(object_ids(objects)[j] == k);
            }
        }
    }
}

/// The records of one bucket, in the order a read hands them out: exactly the bucket's
/// records, each once.
pub open spec fn lists_bucket(records: Seq<ObjectRecord>, bucket: Map<SmartObjectId, ObjectRecord>) -> bool {
    &&& records.len() == bucket.dom().len()
    &&& forall|i: int|
        0 <= i < records.len() ==> bucket.contains_key(#[trigger] records[i].object.id)
            && bucket[records[i].object.id] == records[i]
    &&& forall|k: SmartObjectId|
        bucket.contains_key(k) ==> exists|i: int|
            0 <= i < records.len() && #[trigger] records[i] == bucket[k]
}

/// In-memory object store: per dimension, the dimension's objects keyed by identifier.
pub struct InMemoryObjectStore {
    buckets: HashMap<DimensionId, HashMap<SmartObjectId, ObjectRecord>>,
}

impl InMemoryObjectStore {
    /// Per dimension identifier, that dimension's records keyed by object identifier.
    pub closed spec fn contents(&self) -> Map<DimensionId, Map<SmartObjectId, ObjectRecord>> {
        Map::new(|d: DimensionId| self.buckets@.contains_key(d), |d: DimensionId| self.buckets@[d]@)
    }

    #[verifier::type_invariant]
    closed spec fn keyed(&self) -> bool {
        records_are_keyed(self.contents())
    }

    /// An empty store.
    pub fn new() -> (s: Self)
        ensures
            s.contents() == Map::<DimensionId, Map<SmartObjectId, ObjectRecord>>::empty(),
    {
        let s = InMemoryObjectStore { buckets: HashMap::new() };
        assert(s.contents() =~= Map::<DimensionId, Map<SmartObjectId, ObjectRecord>>::empty());
        s
    }

    /// A store holding every dimension of `state`, synced in order.
    pub fn from_state(state: &HyperspaceState) -> (s: Self)
        ensures
            s.contents() == synced_all(Map::empty(), state.dimensions@),
    {
        let mut store = Self::new();
        let mut i: usize = 0;
        while i < state.dimensions.len()
            invariant
                i <= state.dimensions@.len(),
                store.contents() == synced_all(Map::empty(), state.dimensions@.take(i as int)),
            decreases state.dimensions@.len() - i,
        {
            let _ = store.sync_dimension(&state.dimensions[i]);
            assert(state.dimensions@.take(i + 1).drop_last() =~= state.dimensions@.take(i as int));
            i = i + 1;
        }
        assert(state.dimensions@.take(state.dimensions@.len() as int) =~= state.dimensions@);
        store
    }
}

impl Default for InMemoryObjectStore {
    /// An empty store.
    fn default() -> (s: Self)
        ensures
            s.contents() == Map::<DimensionId, Map<SmartObjectId, ObjectRecord>>::empty(),
    {
        Self::new()
    }
}

/// Storage of a workspace's objects, addressed by dimension.
pub trait ObjectStore {
    /// Replaces what is stored for `dimension` with its current objects; returns how
    /// many objects it has.
    fn sync_dimension(&mut self, dimension: &Dimension) -> Result<usize, HyperspaceError>;

    /// The records stored for a dimension.
    fn list_active(&self, dimension_id: DimensionId) -> Result<Vec<ObjectRecord>, HyperspaceError>;
}

impl ObjectStore for InMemoryObjectStore {
    fn sync_dimension(&mut self, dimension: &Dimension) -> (r: Result<usize, HyperspaceError>)
        ensures
            r matches Ok(n) && n == dimension.objects@.len(),
            final(self).contents() == old(self).contents().insert(
                dimension.id,
                synced_bucket(dimension.id, dimension.objects@),
            ),
    {
        proof {
            use_type_invariant(&*self);
        }
        let mut bucket: HashMap<SmartObjectId, ObjectRecord> = HashMap::new();
        let mut i: usize = 0;
        while i < dimension.objects.len()
            invariant
                i <= dimension.objects@.len(),
                bucket@ == synced_bucket(dimension.id, dimension.objects@.take(i as int)),
            decreases dimension.objects@.len() - i,
        {
            let object = dimension.objects[i].duplicate();
            let id = object.id;
            bucket.insert(id, ObjectRecord { dimension_id: dimension.id, object });
            assert(dimension.objects@.take(i + 1).drop_last() =~= dimension.objects@.take(i as int));
            i = i + 1;
        }
        assert(dimension.objects@.take(dimension.objects@.len() as int) =~= dimension.objects@);
        proof {
            lemma_synced_bucket_keyed(dimension.id, dimension.objects@);
        }
        let ghost before = self.contents();
        let mut buckets: HashMap<DimensionId, HashMap<SmartObjectId, ObjectRecord>> = HashMap::new();
        std::mem::swap(&mut buckets, &mut self.buckets);
        buckets.insert(dimension.id, bucket);
        proof {
            let after = Map::new(
                |d: DimensionId| buckets@.contains_key(d),
                |d: DimensionId| buckets@[d]@,
            );
            let expected = before.insert(dimension.id, synced_bucket(dimension.id, dimension.objects@));
            assert(after =~= expected);
            assert forall|d: DimensionId, k: SmartObjectId|
                #![trigger expected[d][k]]
                expected.contains_key(d) && expected[d].contains_key(k) implies expected[d][k].object.id == k
                && expected[d][k].dimension_id == d by {
                if d != dimension.id {
                    assert(before[d][k] == expected[d][k]);
                }
            }
        }
        self.buckets = buckets;
        assert(self.contents() =~= before.insert(
            dimension.id,
            synced_bucket(dimension.id, dimension.objects@),
        ));
        Ok(dimension.objects.len())
    }

    fn list_active(&self, dimension_id: DimensionId) -> (r: Result<Vec<ObjectRecord>, HyperspaceError>)
        ensures
            r matches Ok(records) && lists_bucket(
                records@,
                if self.contents().contains_key(dimension_id) {
                    self.contents()[dimension_id]
                } else {
                    Map::empty()
                },
            ),
    {
        proof {
            use_type_invariant(self);
        }
        let mut out: Vec<ObjectRecord> = Vec::new();
        match self.buckets.get(&dimension_id) {
            Some(bucket) => {
                let ghost v = spec_hash_map_iter(bucket).remaining();
                for pair in it: bucket.iter()
                    invariant
                        it.seq() == v,
                        out@.len() == it.index(),
                        forall|j: int| 0 <= j < out@.len() ==> #[trigger] out@[j] == *v[j].1,
                {
                    let (_key, record) = pair;
                    out.push(record.duplicate());
                }
                proof {
                    let m = self.contents()[dimension_id];
                    assert(m == bucket@);
                    assert(out@.len() == v.len());
                    assert forall|i: int|
                        0 <= i < out@.len() implies m.contains_key(#[trigger] out@[i].object.id)
                        && m[out@[i].object.id] == out@[i] by {
                        assert(out@[i] == *v[i].1);
                        assert(m.contains_key(*v[i].0) && m[*v[i].0] == *v[i].1);
                    }
                    assert forall|k: SmartObjectId| m.contains_key(k) implies exists|i: int|
                        0 <= i < out@.len() && #[trigger] out@[i] == m[k] by {
                        assert(v.contains((&k, &m[k])));
                        let i = choose|i: int| 0 <= i < v.len() && v[i] == (&k, &m[k]);
                        assert(out@[i] == m[k]);
                    }
                }
            },
            None => {
                assert(Map::<SmartObjectId, ObjectRecord>::empty().dom().len() == 0);
            },
        }
        Ok(out)
    }
}

} // verus!
