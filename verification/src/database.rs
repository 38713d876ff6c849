//! The store: committed state, forks with savepoints, sealed patches.

use crate::crypto;
use crate::schema::{Caches, CachesView, Schema, SchemaView};
use crate::service_data::ServiceData;
use crate::table::Record;
use vstd::prelude::*;

verus! {

/// Why the store refused or failed.
#[derive(Clone, Debug, PartialEq, Eq)]
pub enum StorageError {
    /// The patch was made from a state that is no longer the committed one.
    StalePatch,
    /// A service reported that the store failed under it.
    Fault { description: String },
}

/// The version of the store once it has taken one more patch: the count
/// of patches starts again at zero after its largest value.
pub open spec fn next_version(version: u64) -> u64 {
    if version == u64::MAX {
        0
    } else {
        (version + 1) as u64
    }
}

/// A fork as plain values.
pub struct ForkView {
    /// The version of the store when the fork was made.
    pub base_version: u64,
    /// The tables of the core as the fork sees them.
    pub schema: SchemaView,
    /// The data of the services as the fork sees it.
    pub data: Map<crypto::Hash, Seq<u8>>,
    /// The data of the services at the last savepoint.
    pub saved: Map<crypto::Hash, Seq<u8>>,
}

/// A writable overlay on the committed state. Its changes are seen only
/// through it until its patch is merged.
///
/// Savepoints cover the data of the services: the tables of the core are
/// written by the block builder and the commit engine alone, which never
/// take a change back.
pub struct Fork {
    base_version: u64,
    schema: Schema,
    data: ServiceData,
    saved: ServiceData,
}

impl Fork {
    /// The tables of the core in this fork.
    pub closed spec fn schema_of(&self) -> Schema {
        self.schema
    }

    /// The data of the services in this fork.
    pub closed spec fn data_of(&self) -> ServiceData {
        self.data
    }

    /// The data of the services at the last savepoint.
    pub closed spec fn saved_of(&self) -> ServiceData {
        self.saved
    }

    /// The version of the store when the fork was made.
    pub closed spec fn base_version(&self) -> u64 {
        self.base_version
    }
}

impl View for Fork {
    type V = ForkView;

    open spec fn view(&self) -> ForkView {
        ForkView {
            base_version: self.base_version(),
            schema: self.schema_of()@,
            data: self.data_of()@,
            saved: self.saved_of()@,
        }
    }
}

impl Fork {
    /// The tables of the core are well formed.
    pub open spec fn wf(&self) -> bool {
        self@.schema.wf()
    }

    /// Nothing was changed since the last savepoint.
    pub open spec fn is_clean(&self) -> bool {
        self@.data == self@.saved
    }

    /// The tables of the core, to read.
    pub fn schema(&self) -> (r: &Schema)
        ensures
            *r == self.schema_of(),
    {
        &self.schema
    }

    /// The tables of the core, to write.
    pub(crate) fn schema_mut(&mut self) -> (r: &mut Schema)
        ensures
            *r == old(self).schema_of(),
            final(self).schema_of() == *final(r),
            final(self).data_of() == old(self).data_of(),
            final(self).saved_of() == old(self).saved_of(),
            final(self).base_version() == old(self).base_version(),
    {
        &mut self.schema
    }

    /// The data of the services, to read.
    pub fn data(&self) -> (r: &ServiceData)
        ensures
            *r == self.data_of(),
    {
        &self.data
    }

    /// The data of the services, to write.
    pub fn data_mut(&mut self) -> (r: &mut ServiceData)
        ensures
            *r == old(self).data_of(),
            final(self).data_of() == *final(r),
            final(self).schema_of() == old(self).schema_of(),
            final(self).saved_of() == old(self).saved_of(),
            final(self).base_version() == old(self).base_version(),
    {
        &mut self.data
    }

    /// Sets a savepoint: a later rollback undoes only what is written from
    /// now on.
    pub fn flush(&mut self)
        ensures
            final(self)@ == (ForkView { saved: old(self)@.data, ..old(self)@ }),
            final(self).schema_of() == old(self).schema_of(),
            final(self).data_of() == old(self).data_of(),
    {
        self.saved = self.data.duplicate();
    }

    /// Goes back to the last savepoint, or to the state in which the fork
    /// was made where none was set.
    pub fn rollback(&mut self)
        ensures
            final(self)@ == (ForkView { data: old(self)@.saved, ..old(self)@ }),
            final(self).schema_of() == old(self).schema_of(),
            final(self).saved_of() == old(self).saved_of(),
    {
        self.data = self.saved.duplicate();
    }

    /// Seals the fork into a patch that holds all its changes.
    pub fn into_patch(self) -> (r: Patch)
        ensures
            r@ == (PatchView {
                base_version: self@.base_version,
                schema: self@.schema,
                data: self@.data,
            }),
            r.schema_of() == self.schema_of(),
    {
        Patch { base_version: self.base_version, schema: self.schema, data: self.data }
    }
}

/// A patch as plain values.
pub struct PatchView {
    /// The version of the store when the fork was made.
    pub base_version: u64,
    /// The tables of the core after the changes.
    pub schema: SchemaView,
    /// The data of the services after the changes.
    pub data: Map<crypto::Hash, Seq<u8>>,
}

/// The sealed changes of a fork, which the store takes at once or not at all.
pub struct Patch {
    base_version: u64,
    schema: Schema,
    data: ServiceData,
}

impl Patch {
    /// The tables of the core in this patch.
    pub closed spec fn schema_of(&self) -> Schema {
        self.schema
    }

    /// The data of the services in this patch.
    pub closed spec fn data_of(&self) -> ServiceData {
        self.data
    }

    /// The version of the store when the fork was made.
    pub closed spec fn base_version(&self) -> u64 {
        self.base_version
    }
}

impl View for Patch {
    type V = PatchView;

    open spec fn view(&self) -> PatchView {
        PatchView {
            base_version: self.base_version(),
            schema: self.schema_of()@,
            data: self.data_of()@,
        }
    }
}

impl Patch {
    /// The tables of the core are well formed.
    pub open spec fn wf(&self) -> bool {
        self@.schema.wf()
    }

    /// The tables of the core, to read.
    pub fn schema(&self) -> (r: &Schema)
        ensures
            *r == self.schema_of(),
    {
        &self.schema
    }

    /// The data of the services, to read.
    pub fn data(&self) -> (r: &ServiceData)
        ensures
            *r == self.data_of(),
    {
        &self.data
    }

    /// Opens the patch again as a fork, to add changes to it.
    pub fn into_fork(self) -> (r: Fork)
        ensures
            r@ == (ForkView {
                base_version: self@.base_version,
                schema: self@.schema,
                data: self@.data,
                saved: self@.data,
            }),
            r.schema_of() == self.schema_of(),
    {
        let saved = self.data.duplicate();
        Fork { base_version: self.base_version, schema: self.schema, data: self.data, saved }
    }
}

/// A read-only view of the state at one point in time.
pub struct Snapshot {
    schema: Schema,
    data: ServiceData,
    caches: Caches,
}

impl Snapshot {
    /// The tables of the core in this snapshot.
    pub closed spec fn schema_of(&self) -> Schema {
        self.schema
    }

    /// The data of the services in this snapshot.
    pub closed spec fn data_of(&self) -> ServiceData {
        self.data
    }

    /// The caches in this snapshot.
    pub closed spec fn caches_of(&self) -> Caches {
        self.caches
    }

    /// The tables of the core.
    pub fn schema(&self) -> (r: &Schema)
        ensures
            *r == self.schema_of(),
    {
        &self.schema
    }

    /// The data of the services.
    pub fn data(&self) -> (r: &ServiceData)
        ensures
            *r == self.data_of(),
    {
        &self.data
    }

    /// The caches of the node.
    pub fn caches(&self) -> (r: &Caches)
        ensures
            *r == self.caches_of(),
    {
        &self.caches
    }
}

/// The committed state as plain values.
pub struct DatabaseView {
    /// The version of the store: the count of the patches that it has
    /// taken.
    pub version: u64,
    /// The tables of the core.
    pub schema: SchemaView,
    /// The data of the services.
    pub data: Map<crypto::Hash, Seq<u8>>,
    /// The caches of the node.
    pub caches: CachesView,
}

/// The store in memory: the committed state, which changes by patches.
pub struct Database {
    version: u64,
    schema: Schema,
    data: ServiceData,
    caches: Caches,
}

impl Database {
    /// The committed tables of the core.
    pub closed spec fn schema_of(&self) -> Schema {
        self.schema
    }

    /// The committed data of the services.
    pub closed spec fn data_of(&self) -> ServiceData {
        self.data
    }

    /// The caches of the node.
    pub closed spec fn caches_of(&self) -> Caches {
        self.caches
    }

    /// The version of the store.
    pub closed spec fn version(&self) -> u64 {
        self.version
    }
}

impl View for Database {
    type V = DatabaseView;

    open spec fn view(&self) -> DatabaseView {
        DatabaseView {
            version: self.version(),
            schema: self.schema_of()@,
            data: self.data_of()@,
            caches: self.caches_of()@,
        }
    }
}

impl Database {
    /// The committed tables of the core are well formed.
    pub open spec fn wf(&self) -> bool {
        self@.schema.wf()
    }

    /// An empty store.
    pub fn new() -> (r: Database)
        ensures
            r.wf(),
            r@ == (DatabaseView {
                version: 0,
                schema: SchemaView::empty(),
                data: Map::empty(),
                caches: CachesView::empty(),
            }),
            r.schema_of().aggregator_entries() == Seq::<(crypto::Hash, crypto::Hash)>::empty(),
    {
        Database { version: 0, schema: Schema::new(), data: ServiceData::new(), caches: Caches::new() }
    }

    /// The committed tables of the core.
    pub fn schema(&self) -> (r: &Schema)
        ensures
            *r == self.schema_of(),
    {
        &self.schema
    }

    /// The committed data of the services.
    pub fn data(&self) -> (r: &ServiceData)
        ensures
            *r == self.data_of(),
    {
        &self.data
    }

    /// The caches of the node, to read.
    pub fn caches(&self) -> (r: &Caches)
        ensures
            *r == self.caches_of(),
    {
        &self.caches
    }

    /// The caches of the node, to write. They are no part of a patch.
    pub fn caches_mut(&mut self) -> (r: &mut Caches)
        ensures
            *r == old(self).caches_of(),
            final(self).caches_of() == *final(r),
            final(self).schema_of() == old(self).schema_of(),
            final(self).data_of() == old(self).data_of(),
            final(self).version() == old(self).version(),
    {
        &mut self.caches
    }

    /// Copies the committed state into a read-only snapshot.
    pub fn snapshot(&self) -> (r: Snapshot)
        ensures
            r.schema_of()@ == self@.schema,
            r.data_of()@ == self@.data,
            r.caches_of()@ == self@.caches,
            r.schema_of().aggregator_entries() == self.schema_of().aggregator_entries(),
    {
        Snapshot {
            schema: self.schema.duplicate_schema(),
            data: self.data.duplicate(),
            caches: self.caches.duplicate_caches(),
        }
    }

    /// Makes a fork of the committed state, with a savepoint at that state.
    pub fn fork(&self) -> (r: Fork)
        ensures
            r@ == (ForkView {
                base_version: self@.version,
                schema: self@.schema,
                data: self@.data,
                saved: self@.data,
            }),
            r.schema_of().aggregator_entries() == self.schema_of().aggregator_entries(),
    {
        Fork {
            base_version: self.version,
            schema: self.schema.duplicate_schema(),
            data: self.data.duplicate(),
            saved: self.data.duplicate(),
        }
    }

    /// Takes the changes of `patch`, all at once. A patch that was made from
    /// another version of the store than the committed one is refused; the
    /// committed state then stays as it is.
    pub fn merge(&mut self, patch: Patch) -> (r: Result<(), StorageError>)
        ensures
            match r {
                Ok(_) => {
                    &&& patch@.base_version == old(self)@.version
                    &&& final(self)@ == (DatabaseView {
                        version: next_version(old(self)@.version),
                        schema: patch@.schema,
                        data: patch@.data,
                        caches: old(self)@.caches,
                    })
                    &&& final(self).schema_of() == patch.schema_of()
                },
                Err(e) => {
                    &&& e == StorageError::StalePatch
                    &&& patch@.base_version != old(self)@.version
                    &&& *final(self) == *old(self)
                },
            },
    {
        if patch.base_version != self.version {
            return Err(StorageError::StalePatch);
        }
        self.version = if self.version == u64::MAX {
            0
        } else {
            self.version + 1
        };
        self.schema = patch.schema;
        self.data = patch.data;
        Ok(())
    }
}

} // verus!
