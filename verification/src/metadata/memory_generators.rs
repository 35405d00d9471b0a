//! The generator records of the in-memory store.

use std::collections::{HashMap, HashSet};

use vstd::prelude::*;
use vstd::string::*;

use crate::error::TsoError;
use crate::metadata::entries;
use crate::metadata::maps;
use crate::metadata::maps::{get_generators, insert_generators, keys_of_generators};
use crate::metadata::memory::MemoryMetadataStore;
use crate::metadata::types;
use crate::metadata::types::{
    GeneratorBatchOp, GeneratorRecord, GeneratorRecordView, CURRENT_METADATA_SCHEMA_VERSION,
};
use crate::text;
use crate::text::push_decimal;

verus! {

broadcast use vstd::std_specs::hash::group_hash_axioms;

pub type Generators = Map<u32, (GeneratorRecordView, u64)>;

/// How a missing generator is named in errors.
pub open spec fn generator_name(generator_id: u32) -> Seq<char> {
    "generator:"@ + text::decimal(generator_id as nat)
}

/// The error for a generator that has no record.
pub fn generator_not_found(generator_id: u32) -> (error: TsoError)
    ensures
        error.is_not_found(generator_name(generator_id)),
{
    let mut name = "generator:".to_owned();
    push_decimal(&mut name, generator_id as u64);
    TsoError::TimelineNotFound { timeline_key: name }
}

/// Some earlier operation of the batch names the same generator.
pub open spec fn generator_named_before(operations: Seq<GeneratorBatchOp>, at: int) -> bool {
    exists|i: int|
        0 <= i < at && (#[trigger] operations[i]).generator_id == operations[at].generator_id
}

/// Some of the first `n` operations names the generator.
pub open spec fn generator_named_among(
    operations: Seq<GeneratorBatchOp>,
    generator_id: u32,
    n: int,
) -> bool {
    exists|i: int| 0 <= i < n && (#[trigger] operations[i]).generator_id == generator_id
}

/// Why a batch stops: a conflict, or a generator without a record.
pub enum GeneratorBatchFault {
    Conflict,
    NotFound(u32),
}

impl GeneratorBatchFault {
    /// The error that reports the fault.
    pub open spec fn is_reported_by(self, error: TsoError) -> bool {
        match self {
            GeneratorBatchFault::Conflict => error == TsoError::CasFailed,
            GeneratorBatchFault::NotFound(generator_id) => error.is_not_found(
                generator_name(generator_id),
            ),
        }
    }
}

/// What stops the batch first, from an operation on.
pub open spec fn generator_batch_fault(
    generators: Generators,
    operations: Seq<GeneratorBatchOp>,
    from: int,
) -> Option<GeneratorBatchFault>
    decreases operations.len() - from,
{
    if from < 0 || from >= operations.len() {
        None
    } else if generator_named_before(operations, from) {
        Some(GeneratorBatchFault::Conflict)
    } else if !generators.contains_key(operations[from].generator_id) {
        Some(GeneratorBatchFault::NotFound(operations[from].generator_id))
    } else if generators[operations[from].generator_id].1 != operations[from].previous_revision {
        Some(GeneratorBatchFault::Conflict)
    } else {
        generator_batch_fault(generators, operations, from + 1)
    }
}

/// The generators after the first `n` operations.
pub open spec fn generators_after(
    generators: Generators,
    operations: Seq<GeneratorBatchOp>,
    n: int,
) -> Generators
    decreases n,
{
    if n <= 0 {
        generators
    } else {
        let operation = operations[n - 1];
        generators_after(generators, operations, n - 1).insert(
            operation.generator_id,
            (operation.record@, (operation.previous_revision + 1) as u64),
        )
    }
}

/// The revisions after a batch: each one past the expected one.
pub open spec fn new_generator_revisions(operations: Seq<GeneratorBatchOp>) -> Seq<u64> {
    operations.map_values(
        |operation: GeneratorBatchOp| (operation.previous_revision + 1) as u64,
    )
}

/// The operation finds its generator at the revision that it expects.
pub open spec fn generator_operation_passes(
    generators: Generators,
    operation: GeneratorBatchOp,
) -> bool {
    &&& generators.contains_key(operation.generator_id)
    &&& generators[operation.generator_id].1 == operation.previous_revision
}

/// The record has the schema version that it must have.
pub open spec fn current_generator_schema(record: GeneratorRecordView) -> bool {
    record.schema_version == CURRENT_METADATA_SCHEMA_VERSION
}

proof fn lemma_later_generators_untouched(
    generators: Generators,
    operations: Seq<GeneratorBatchOp>,
    n: int,
    at: int,
)
    requires
        0 <= n <= at < operations.len(),
        !generator_named_before(operations, at),
    ensures
        ({
            let id = operations[at].generator_id;
            let now = generators_after(generators, operations, n);
            now.contains_key(id) == generators.contains_key(id) && now[id] == generators[id]
        }),
    decreases n,
{
    if n > 0 {
        lemma_later_generators_untouched(generators, operations, n - 1, at);
        assert(operations[n - 1].generator_id != operations[at].generator_id);
    }
}

/// What a lookup of several generators returns for one of them.
pub open spec fn loaded_generator(
    generators: Generators,
    generator_id: u32,
    loaded: Option<GeneratorRecord>,
) -> bool {
    match loaded {
        Some(record) => generators.contains_key(generator_id) && record@
            == generators[generator_id].0 && current_generator_schema(record@),
        None => !generators.contains_key(generator_id),
    }
}

/// The generator has a record of another schema version.
pub open spec fn unreadable_generator(generators: Generators, generator_id: u32) -> bool {
    generators.contains_key(generator_id) && !current_generator_schema(generators[generator_id].0)
}

/// What a lookup of several generators comes to.
pub open spec fn loads_several(
    generators: Generators,
    generator_ids: Seq<u32>,
    result: Result<HashMap<u32, Option<GeneratorRecord>>, TsoError>,
) -> bool {
    match result {
        Ok(loaded) => {
            &&& forall|id: u32| #[trigger]
                loaded@.contains_key(id) <==> generator_ids.contains(id)
            &&& forall|id: u32|
                generator_ids.contains(id) ==> loaded_generator(
                    generators,
                    id,
                    #[trigger] loaded@[id],
                )
        },
        Err(error) => exists|i: int|
            0 <= i < generator_ids.len() && unreadable_generator(
                generators,
                #[trigger] generator_ids[i],
            ),
    }
}

/// A lookup of several generators succeeds exactly where every record among them has the first
/// schema, and then tells of each of them the record that stands, or that there is none.
pub proof fn several_generators_are_found_as_they_stand(
    generators: Generators,
    generator_ids: Seq<u32>,
    result: Result<HashMap<u32, Option<GeneratorRecord>>, TsoError>,
    id: u32,
)
    requires
        loads_several(generators, generator_ids, result),
        generator_ids.contains(id),
    ensures
        result is Err <==> exists|i: int|
            0 <= i < generator_ids.len() && generators.contains_key(#[trigger] generator_ids[i])
                && generators[generator_ids[i]].0.schema_version != 1,
        result matches Ok(loaded) ==> {
            &&& loaded@.contains_key(id)
            &&& loaded@[id] is Some <==> generators.contains_key(id)
            &&& loaded@[id] matches Some(record) ==> record@ == generators[id].0
        },
{
    if result is Ok {
        assert forall|i: int| 0 <= i < generator_ids.len() implies !(generators.contains_key(
            #[trigger] generator_ids[i],
        ) && generators[generator_ids[i]].0.schema_version != 1) by {
            assert(generator_ids.contains(generator_ids[i]));
            assert(loaded_generator(
                generators,
                generator_ids[i],
                result->Ok_0@[generator_ids[i]],
            ));
        }
    } else {
        let i = choose|i: int|
            0 <= i < generator_ids.len() && unreadable_generator(
                generators,
                #[trigger] generator_ids[i],
            );
        assert(generators.contains_key(generator_ids[i])
            && generators[generator_ids[i]].0.schema_version != 1);
    }
}

impl MemoryMetadataStore {
    /// Everything but the generators is as before.
    pub open spec fn keeps_all_but_generators(self, before: MemoryMetadataStore) -> bool {
        &&& self.records == before.records
        &&& self.request_records == before.request_records
        &&& self.request_cleanup_index == before.request_cleanup_index
        &&& self.sorted_timeline_keys == before.sorted_timeline_keys
        &&& self.route_updates == before.route_updates
    }

    /// The generator is not at the last revision with that revision expected.
    pub open spec fn generator_can_move_on(
        self,
        generator_id: u32,
        expected_revision: u64,
    ) -> bool {
        expected_revision < u64::MAX || !self.generator_entries().contains_key(generator_id)
            || self.generator_entries()[generator_id].1 != expected_revision
    }

    pub fn load_generator(&self, generator_id: u32) -> (result: Result<
        Option<(GeneratorRecord, u64)>,
        TsoError,
    >)
        ensures
            entries::finds(
                self.generator_entries(),
                generator_id,
                current_generator_schema(self.generator_entries()[generator_id].0),
                types::unsupported_schema(
                    "generator"@,
                    self.generator_entries()[generator_id].0.schema_version,
                ),
                result,
            ),
    {
        match get_generators(&self.generators, generator_id) {
            Some(entry) => match entry.0.validate_schema_version() {
                Ok(()) => Ok(Some(entry)),
                Err(error) => Err(error),
            },
            None => Ok(None),
        }
    }

    /// The records of several generators; the first unreadable one stops the lookup.
    pub fn load_generators(&self, generator_ids: &[u32]) -> (result: Result<
        HashMap<u32, Option<GeneratorRecord>>,
        TsoError,
    >)
        ensures
            loads_several(self.generator_entries(), generator_ids@, result),
            match result {
                Ok(loaded) => {
                    &&& forall|id: u32| #[trigger]
                        loaded@.contains_key(id) <==> generator_ids@.contains(id)
                    &&& forall|id: u32|
                        generator_ids@.contains(id) ==> loaded_generator(
                            self.generator_entries(),
                            id,
                            #[trigger] loaded@[id],
                        )
                },
                Err(error) => exists|i: int|
                    {
                        &&& 0 <= i < generator_ids@.len()
                        &&& unreadable_generator(
                            self.generator_entries(),
                            #[trigger] generator_ids@[i],
                        )
                        &&& forall|k: int|
                            0 <= k < i ==> !unreadable_generator(
                                self.generator_entries(),
                                #[trigger] generator_ids@[k],
                            )
                        &&& error.is_internal(
                            types::unsupported_schema(
                                "generator"@,
                                self.generator_entries()[generator_ids@[i]].0.schema_version,
                            ),
                        )
                    },
            },
    {
        let mut loaded: HashMap<u32, Option<GeneratorRecord>> = HashMap::new();
        let mut i: usize = 0;
        while i < generator_ids.len()
            invariant
                i <= generator_ids@.len(),
                forall|id: u32| #[trigger]
                    loaded@.contains_key(id) <==> generator_ids@.take(i as int).contains(id),
                forall|id: u32|
                    generator_ids@.take(i as int).contains(id) ==> loaded_generator(
                        self.generator_entries(),
                        id,
                        #[trigger] loaded@[id],
                    ),
                forall|k: int|
                    0 <= k < i ==> !unreadable_generator(
                        self.generator_entries(),
                        #[trigger] generator_ids@[k],
                    ),
            decreases generator_ids@.len() - i,
        {
            let generator_id: u32 = generator_ids[i];
            let record = match self.load_generator(generator_id) {
                Ok(Some(entry)) => Some(entry.0),
                Ok(None) => None,
                Err(error) => {
                    assert(unreadable_generator(
                        self.generator_entries(),
                        generator_ids@[i as int],
                    ));
                    return Err(error);
                },
            };
            loaded.insert(generator_id, record);
            proof {
                let before = generator_ids@.take(i as int);
                let after = generator_ids@.take(i + 1);
                assert(after =~= before.push(generator_id));
                assert forall|id: u32| after.contains(id) <==> before.contains(id) || id
                    == generator_id by {
                    if before.contains(id) {
                        let k = choose|k: int| 0 <= k < before.len() && before[k] == id;
                        assert(after[k] == id);
                    }
                    if id == generator_id {
                        assert(after[i as int] == id);
                    }
                }
            }
            i = i + 1;
        }
        assert(generator_ids@.take(i as int) =~= generator_ids@);
        Ok(loaded)
    }

    /// All generator records, in no particular order.
    pub fn scan_generators(&self) -> (result: Result<Vec<GeneratorRecord>, TsoError>)
        ensures
            match result {
                Ok(records) => exists|ids: Seq<u32>|
                    {
                        &&& #[trigger] maps::lists_ids(ids, self.generator_entries().dom())
                        &&& records@.len() == ids.len()
                        &&& forall|i: int|
                            0 <= i < ids.len() ==> (#[trigger] records@[i])@
                                == self.generator_entries()[ids[i]].0 && current_generator_schema(
                                records@[i]@,
                            )
                    },
                Err(error) => exists|id: u32|
                    {
                        &&& #[trigger] unreadable_generator(self.generator_entries(), id)
                        &&& error.is_internal(
                            types::unsupported_schema(
                                "generator"@,
                                self.generator_entries()[id].0.schema_version,
                            ),
                        )
                    },
            },
    {
        let ids = keys_of_generators(&self.generators);
        let mut records: Vec<GeneratorRecord> = Vec::new();
        let mut i: usize = 0;
        while i < ids.len()
            invariant
                i <= ids@.len(),
                maps::lists_ids(ids@, self.generator_entries().dom()),
                records@.len() == i,
                forall|k: int|
                    0 <= k < i ==> (#[trigger] records@[k])@ == self.generator_entries()[ids@[k]].0
                        && current_generator_schema(records@[k]@),
            decreases ids@.len() - i,
        {
            assert(ids@.contains(ids@[i as int]));
            assert(self.generator_entries().dom().contains(ids@[i as int]));
            match self.load_generator(ids[i]) {
                Ok(Some(entry)) => {
                    records.push(entry.0);
                },
                Ok(None) => {},
                Err(error) => {
                    assert(unreadable_generator(self.generator_entries(), ids@[i as int]));
                    return Err(error);
                },
            }
            i = i + 1;
        }
        Ok(records)
    }

    /// Creates the record of a generator that has none; it starts at revision one.
    pub fn create_generator(&mut self, generator_id: u32, record: &GeneratorRecord) -> (result:
        Result<u64, TsoError>)
        ensures
            final(self).keeps_all_but_generators(*old(self)),
            entries::creates(
                old(self).generator_entries(),
                generator_id,
                record@,
                record.schema_version == CURRENT_METADATA_SCHEMA_VERSION,
                types::unsupported_schema("generator"@, record.schema_version),
                final(self).generator_entries(),
                result,
            ),
            result is Err ==> *final(self) == *old(self),
    {
        match record.validate_schema_version() {
            Ok(()) => {},
            Err(error) => {
                return Err(error);
            },
        }
        let stamped = record.stamped_for_persistence();
        if get_generators(&self.generators, generator_id).is_some() {
            return Err(TsoError::MetadataAlreadyExists);
        }
        insert_generators(&mut self.generators, generator_id, (stamped, 1));
        Ok(1)
    }

    /// Replaces the record of a generator whose revision is the expected one.
    pub fn compare_exchange_generator(
        &mut self,
        generator_id: u32,
        expected_revision: u64,
        record: &GeneratorRecord,
    ) -> (result: Result<u64, TsoError>)
        requires
            old(self).generator_can_move_on(generator_id, expected_revision),
        ensures
            final(self).keeps_all_but_generators(*old(self)),
            entries::exchanges(
                old(self).generator_entries(),
                generator_id,
                expected_revision,
                record@,
                record.schema_version == CURRENT_METADATA_SCHEMA_VERSION,
                types::unsupported_schema("generator"@, record.schema_version),
                generator_name(generator_id),
                final(self).generator_entries(),
                result,
            ),
            result is Err ==> *final(self) == *old(self),
    {
        match record.validate_schema_version() {
            Ok(()) => {},
            Err(error) => {
                return Err(error);
            },
        }
        let stamped = record.stamped_for_persistence();
        match get_generators(&self.generators, generator_id) {
            Some(entry) => {
                if entry.1 != expected_revision {
                    return Err(TsoError::CasFailed);
                }
                let new_revision: u64 = expected_revision + 1;
                insert_generators(&mut self.generators, generator_id, (stamped, new_revision));
                Ok(new_revision)
            },
            None => Err(generator_not_found(generator_id)),
        }
    }

    /// Replaces several generator records at once: all of them, or none.
    pub fn compare_exchange_generators(&mut self, operations: &[GeneratorBatchOp]) -> (result:
        Result<Vec<u64>, TsoError>)
        requires
            forall|i: int|
                0 <= i < operations@.len() ==> old(self).generator_can_move_on(
                    (#[trigger] operations@[i]).generator_id,
                    operations@[i].previous_revision,
                ),
        ensures
            final(self).keeps_all_but_generators(*old(self)),
            match generator_batch_fault(old(self).generator_entries(), operations@, 0) {
                Some(fault) => {
                    &&& result matches Err(error) && fault.is_reported_by(error)
                    &&& *final(self) == *old(self)
                },
                None => {
                    &&& result matches Ok(revisions) && revisions@ == new_generator_revisions(
                        operations@,
                    )
                    &&& final(self).generator_entries() == generators_after(
                        old(self).generator_entries(),
                        operations@,
                        operations@.len() as int,
                    )
                },
            },
    {
        match self.check_generator_operations(operations) {
            Ok(()) => {},
            Err(error) => {
                return Err(error);
            },
        }
        let ghost generators = self.generator_entries();
        let mut revisions: Vec<u64> = Vec::new();
        let mut i: usize = 0;
        while i < operations.len()
            invariant
                i <= operations@.len(),
                generators == old(self).generator_entries(),
                self.keeps_all_but_generators(*old(self)),
                generator_batch_fault(generators, operations@, 0) is None,
                forall|k: int|
                    0 <= k < operations@.len() ==> generator_operation_passes(
                        generators,
                        #[trigger] operations@[k],
                    ),
                forall|k: int|
                    0 <= k < operations@.len() ==> !#[trigger] generator_named_before(
                        operations@,
                        k,
                    ),
                forall|k: int|
                    0 <= k < operations@.len() ==> old(self).generator_can_move_on(
                        (#[trigger] operations@[k]).generator_id,
                        operations@[k].previous_revision,
                    ),
                revisions@ == new_generator_revisions(operations@.take(i as int)),
                self.generator_entries() == generators_after(generators, operations@, i as int),
            decreases operations@.len() - i,
        {
            let operation = &operations[i];
            proof {
                assert(generator_operation_passes(generators, operations@[i as int]));
                assert(!generator_named_before(operations@, i as int));
                lemma_later_generators_untouched(generators, operations@, i as int, i as int);
            }
            if let Some(entry) = get_generators(&self.generators, operation.generator_id) {
                let new_revision: u64 = entry.1 + 1;
                insert_generators(
                    &mut self.generators,
                    operation.generator_id,
                    (operation.record.clone(), new_revision),
                );
                revisions.push(new_revision);
            }
            assert(new_generator_revisions(operations@.take(i + 1)) =~= new_generator_revisions(
                operations@.take(i as int),
            ).push((operations@[i as int].previous_revision + 1) as u64));
            i = i + 1;
        }
        assert(operations@.take(i as int) =~= operations@);
        Ok(revisions)
    }

    /// Checks every operation of a batch before any of them is applied.
    fn check_generator_operations(&self, operations: &[GeneratorBatchOp]) -> (result: Result<
        (),
        TsoError,
    >)
        ensures
            match generator_batch_fault(self.generator_entries(), operations@, 0) {
                Some(fault) => result matches Err(error) && fault.is_reported_by(error),
                None => {
                    &&& result is Ok
                    &&& forall|k: int|
                        0 <= k < operations@.len() ==> generator_operation_passes(
                            self.generator_entries(),
                            #[trigger] operations@[k],
                        )
                    &&& forall|k: int|
                        0 <= k < operations@.len() ==> !#[trigger] generator_named_before(
                            operations@,
                            k,
                        )
                },
            },
    {
        let mut seen: HashSet<u32> = HashSet::new();
        let mut i: usize = 0;
        while i < operations.len()
            invariant
                i <= operations@.len(),
                forall|id: u32|
                    seen@.contains(id) <==> #[trigger] generator_named_among(
                        operations@,
                        id,
                        i as int,
                    ),
                generator_batch_fault(self.generator_entries(), operations@, 0)
                    == generator_batch_fault(self.generator_entries(), operations@, i as int),
                forall|k: int|
                    0 <= k < i ==> generator_operation_passes(
                        self.generator_entries(),
                        #[trigger] operations@[k],
                    ),
                forall|k: int| 0 <= k < i ==> !#[trigger] generator_named_before(operations@, k),
            decreases operations@.len() - i,
        {
            let operation = &operations[i];
            assert(generator_named_before(operations@, i as int) == generator_named_among(
                operations@,
                operation.generator_id,
                i as int,
            ));
            let fresh = seen.insert(operation.generator_id);
            if !fresh {
                return Err(TsoError::CasFailed);
            }
            match get_generators(&self.generators, operation.generator_id) {
                None => {
                    return Err(generator_not_found(operation.generator_id));
                },
                Some(entry) => {
                    if entry.1 != operation.previous_revision {
                        return Err(TsoError::CasFailed);
                    }
                },
            }
            assert forall|id: u32|
                seen@.contains(id) <==> #[trigger] generator_named_among(
                    operations@,
                    id,
                    i + 1,
                ) by {
                if generator_named_among(operations@, id, i as int) {
                    let k = choose|k: int|
                        0 <= k < i && (#[trigger] operations@[k]).generator_id == id;
                    assert(operations@[k].generator_id == id);
                }
                if id == operation.generator_id {
                    assert(operations@[i as int].generator_id == id);
                }
            }
            i = i + 1;
        }
        Ok(())
    }
}

} // verus!
