//! The pipelines built so far, graphics and compute apart, each kept in a
//! bounded cache. A key stands for what a pipeline is built from: the
//! caller gives equal keys to equal pipeline states (or shaders) only, so
//! that a hit hands back the pipeline built from that very state.
use vstd::prelude::*;
use crate::cache_map::{lemma_wf_entries, law_lookup_after_insert, CacheLookup, CacheMap};

verus! {

/// Graphics and compute pipelines by key. Each cache holds half of the
/// capacity; pipelines pushed out of a cache wait for the next frame to be
/// destroyed.
pub struct PipelineLookup {
    graphics_pipelines: CacheMap,
    compute_pipelines: CacheMap,
}

impl PipelineLookup {
    /// The graphics cache.
    pub closed spec fn graphics(&self) -> CacheMap {
        self.graphics_pipelines
    }

    /// The compute cache.
    pub closed spec fn compute(&self) -> CacheMap {
        self.compute_pipelines
    }

    /// Both caches are in order.
    pub open spec fn wf(&self) -> bool {
        self.graphics().wf() && self.compute().wf()
    }

    /// Empty caches of `capacity / 2` pipelines each.
    pub fn new(capacity: usize) -> (l: Self)
        requires
            capacity >= 2,
        ensures
            l.wf(),
            l.graphics().entries() == Seq::<(u64, u64)>::empty(),
            l.compute().entries() == Seq::<(u64, u64)>::empty(),
            l.graphics().capacity() == capacity / 2,
            l.compute().capacity() == capacity / 2,
            l.graphics().unused_values() == Seq::<u64>::empty(),
            l.compute().unused_values() == Seq::<u64>::empty(),
    {
        PipelineLookup {
            graphics_pipelines: CacheMap::new(capacity / 2),
            compute_pipelines: CacheMap::new(capacity / 2),
        }
    }

    /// Looks up the graphics pipeline built from the state with key `key`;
    /// on a miss the caller builds it and hands it to `insert_graphics_pipeline`.
    pub fn get_graphics_pipeline(&mut self, key: u64) -> (r: CacheLookup)
        requires
            old(self).wf(),
        ensures
            final(self).wf(),
            final(self).compute() == old(self).compute(),
            final(self).graphics().capacity() == old(self).graphics().capacity(),
            lookup_outcome(old(self).graphics(), final(self).graphics(), key, r),
    {
        self.graphics_pipelines.lookup(key)
    }

    /// Keeps the graphics pipeline built for `key`.
    pub fn insert_graphics_pipeline(&mut self, key: u64, pipeline: u64)
        requires
            old(self).wf(),
        ensures
            final(self).wf(),
            final(self).compute() == old(self).compute(),
            insert_outcome(old(self).graphics(), final(self).graphics(), key, pipeline),
    {
        self.graphics_pipelines.insert(key, pipeline)
    }

    /// Looks up the compute pipeline of the shader with key `key`; on a miss
    /// the caller builds it and hands it to `insert_compute_pipeline`.
    pub fn get_compute_pipeline(&mut self, key: u64) -> (r: CacheLookup)
        requires
            old(self).wf(),
        ensures
            final(self).wf(),
            final(self).graphics() == old(self).graphics(),
            final(self).compute().capacity() == old(self).compute().capacity(),
            lookup_outcome(old(self).compute(), final(self).compute(), key, r),
    {
        self.compute_pipelines.lookup(key)
    }

    /// Keeps the compute pipeline built for `key`.
    pub fn insert_compute_pipeline(&mut self, key: u64, pipeline: u64)
        requires
            old(self).wf(),
        ensures
            final(self).wf(),
            final(self).graphics() == old(self).graphics(),
            insert_outcome(old(self).compute(), final(self).compute(), key, pipeline),
    {
        self.compute_pipelines.insert(key, pipeline)
    }

    /// Once a frame: the pipelines pushed out of either cache, graphics first,
    /// for the caller to destroy; both unused lists are left empty.
    pub fn new_frame(&mut self) -> (destroy: Vec<u64>)
        requires
            old(self).wf(),
        ensures
            final(self).wf(),
            destroy@ == old(self).graphics().unused_values() + old(self).compute().unused_values(),
            final(self).graphics().entries() == old(self).graphics().entries(),
            final(self).compute().entries() == old(self).compute().entries(),
            final(self).graphics().capacity() == old(self).graphics().capacity(),
            final(self).compute().capacity() == old(self).compute().capacity(),
            final(self).graphics().unused_values() == Seq::<u64>::empty(),
            final(self).compute().unused_values() == Seq::<u64>::empty(),
    {
        let mut destroy: Vec<u64> = Vec::new();
        {
            let unused = self.graphics_pipelines.unused();
            destroy.append(unused);
        }
        {
            let unused = self.compute_pipelines.unused();
            destroy.append(unused);
        }
        destroy
    }
}

/// What a look-up in `before` returns and leaves in `after`, as
/// `CacheMap::lookup` states it.
pub open spec fn lookup_outcome(before: CacheMap, after: CacheMap, key: u64, r: CacheLookup) -> bool {
    &&& crate::cache_map::has_key(before.entries(), key) ==> ({
        let e = before.entries();
        let i = crate::cache_map::key_position(e, key);
        &&& r == CacheLookup::Hit(e[i].1)
        &&& after.entries() == e.remove(i).push(e[i])
        &&& after.unused_values() == before.unused_values()
    })
    &&& !crate::cache_map::has_key(before.entries(), key) ==> {
        &&& r == CacheLookup::Miss
        &&& after.entries() == before.entries()
        &&& after.unused_values() == (if before.entries().len() == before.capacity() {
            before.unused_values().push(before.entries()[0].1)
        } else {
            before.unused_values()
        })
    }
}

/// What an insert into `before` leaves in `after`, as `CacheMap::insert` states it.
pub open spec fn insert_outcome(before: CacheMap, after: CacheMap, key: u64, value: u64) -> bool {
    &&& after.capacity() == before.capacity()
    &&& after.unused_values() == before.unused_values()
    &&& crate::cache_map::has_key(before.entries(), key) ==> after.entries() == before.entries().remove(
        crate::cache_map::key_position(before.entries(), key),
    ).push((key, value))
    &&& !crate::cache_map::has_key(before.entries(), key) ==> after.entries() == (if before.entries().len()
        == before.capacity() {
        before.entries().drop_first().push((key, value))
    } else {
        before.entries().push((key, value))
    })
}

/// A pipeline just kept for a key is what the next look-up of that key in
/// the same cache finds: it is built once and then found again.
pub proof fn law_pipeline_found_after_insert(
    before: CacheMap,
    after_insert: CacheMap,
    after_lookup: CacheMap,
    key: u64,
    pipeline: u64,
    r: CacheLookup,
)
    requires
        before.wf(),
        insert_outcome(before, after_insert, key, pipeline),
        lookup_outcome(after_insert, after_lookup, key, r),
    ensures
        r == CacheLookup::Hit(pipeline),
{
    lemma_wf_entries(before);
    law_lookup_after_insert(before.entries(), before.capacity(), key, pipeline);
}

} // verus!
