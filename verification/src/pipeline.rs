//! The pipeline table: for each compute program, where the pipeline cache
//! keeps it and the executable pipeline once the cache has it ready.

use crate::resource::PipelineEntry;
use crate::table::{id_entries, IdTable};
use vstd::prelude::*;

verus! {

/// What the pipeline cache answers for each of its ids: the executable
/// pipeline, or nothing while the program is not ready.
pub type CacheView = Seq<Option<usize>>;

/// An entry after the cache was asked: an unresolved entry takes what the
/// cache has under its id, a resolved one stays as it is.
pub open spec fn resolved(entry: PipelineEntry, cache: CacheView) -> PipelineEntry {
    if entry.pipeline.is_none() && entry.cache_id < cache.len() {
        PipelineEntry { pipeline: cache[entry.cache_id as int], ..entry }
    } else {
        entry
    }
}

/// A pipeline table after the cache was asked for each of its entries.
pub open spec fn extracted(
    pipelines: Map<u128, PipelineEntry>,
    cache: CacheView,
) -> Map<u128, PipelineEntry> {
    Map::new(
        |program: u128| pipelines.contains_key(program),
        |program: u128| resolved(pipelines[program], cache),
    )
}

/// The pipeline table without programs.
pub open spec fn no_pipelines() -> Map<u128, PipelineEntry> {
    Map::empty()
}

/// A slot of the table's arena.
pub struct PipelineSlot {
    pub program: u128,
    pub entry: PipelineEntry,
}

/// The pipelines of a worker, by program identity.
pub struct PipelineTable {
    programs: IdTable,
    slots: Vec<PipelineSlot>,
}

impl View for PipelineTable {
    type V = Map<u128, PipelineEntry>;

    closed spec fn view(&self) -> Map<u128, PipelineEntry> {
        Map::new(
            |program: u128| id_entries(self.programs).contains_key(program),
            |program: u128| self.slots@[id_entries(self.programs)[program] as int].entry,
        )
    }
}

impl PipelineTable {
    /// The table and the arena agree: the programs of the table are exactly
    /// the slots of the arena, each under its own identity.
    pub closed spec fn wf(&self) -> bool {
        &&& forall|program: u128| #[trigger]
            id_entries(self.programs).contains_key(program) ==> {
                &&& id_entries(self.programs)[program] < self.slots@.len()
                &&& self.slots@[id_entries(self.programs)[program] as int].program == program
            }
        &&& forall|i: int|
            0 <= i < self.slots@.len() ==> {
                &&& id_entries(self.programs).contains_key((#[trigger] self.slots@[i]).program)
                &&& id_entries(self.programs)[self.slots@[i].program] == i
            }
    }

    /// A table without programs.
    pub fn new() -> (table: PipelineTable)
        ensures
            table.wf(),
            table@ == no_pipelines(),
    {
        let table = PipelineTable { programs: IdTable::new(), slots: Vec::new() };
        proof {
            assert(table@ =~= no_pipelines());
        }
        table
    }

    /// Registers `program`, which the cache keeps under `cache_id`, as not
    /// resolved yet.
    pub fn add(&mut self, program: u128, cache_id: usize)
        requires
            old(self).wf(),
        ensures
            final(self).wf(),
            final(self)@ == old(self)@.insert(program, PipelineEntry { cache_id, pipeline: None }),
    {
        let entry = PipelineEntry { cache_id, pipeline: None };
        match self.programs.get(program) {
            Some(slot) => {
                self.slots[slot].entry = entry;
            },
            None => {
                let slot = self.slots.len();
                self.slots.push(PipelineSlot { program, entry });
                self.programs.insert(program, slot);
            },
        }
        proof {
            assert(self@ =~= old(self)@.insert(program, entry));
        }
    }

    /// The entry of `program`.
    pub fn get(&self, program: u128) -> (found: Option<PipelineEntry>)
        requires
            self.wf(),
        ensures
            found == (if self@.contains_key(program) {
                Some(self@[program])
            } else {
                None
            }),
    {
        match self.programs.get(program) {
            Some(slot) => Some(self.slots[slot].entry),
            None => None,
        }
    }

    /// Asks the cache for every program that is not resolved yet. An entry
    /// that is resolved is never touched again.
    pub fn extract(&mut self, cache: &Vec<Option<usize>>)
        requires
            old(self).wf(),
        ensures
            final(self).wf(),
            final(self)@ == extracted(old(self)@, cache@),
    {
        let mut i: usize = 0;
        while i < self.slots.len()
            invariant
                i <= self.slots@.len(),
                self.slots@.len() == old(self).slots@.len(),
                self.programs == old(self).programs,
                old(self).wf(),
                forall|j: int|
                    0 <= j < self.slots@.len() ==> (#[trigger] self.slots@[j]).program == old(
                        self,
                    ).slots@[j].program,
                forall|j: int|
                    0 <= j < i ==> (#[trigger] self.slots@[j]).entry == resolved(
                        old(self).slots@[j].entry,
                        cache@,
                    ),
                forall|j: int|
                    i <= j < self.slots@.len() ==> (#[trigger] self.slots@[j]).entry == old(
                        self,
                    ).slots@[j].entry,
            decreases self.slots@.len() - i,
        {
            let entry = self.slots[i].entry;
            if entry.pipeline.is_none() && entry.cache_id < cache.len() {
                self.slots[i].entry = PipelineEntry {
                    cache_id: entry.cache_id,
                    pipeline: cache[entry.cache_id],
                };
            }
            i += 1;
        }
        proof {
            assert(self@ =~= extracted(old(self)@, cache@));
        }
    }
}

} // verus!
