//! Services: the pluggable extensions of the ledger, and the registry that
//! holds them in ascending order of identifier.

use crate::aggregator::MAX_TABLES;
use crate::crypto;
use crate::crypto::{PublicKey, SecretKey};
use crate::database::Fork;
use crate::messages::{RawTransaction, RawTransactionView};
use crate::service_data::ServiceData;
use crate::transaction::Transaction;
use vstd::multiset::Multiset;
use vstd::prelude::*;
use vstd::seq_lib::{to_multiset_insert, to_multiset_remove};

verus! {

/// What came of running a hook of a service behind the fault barrier.
#[derive(Clone, Debug, PartialEq, Eq)]
pub enum HookOutcome {
    /// The hook ran to its end.
    Success,
    /// The hook ended unexpectedly, for a reason other than the store.
    Panicked { description: String },
    /// The hook ended unexpectedly because the store failed under it.
    StorageFault { description: String },
}

/// Why a service did not take a payload for one of its transactions.
#[derive(Clone, Debug, PartialEq, Eq)]
pub struct ParseError {
    pub description: String,
}

/// What a service is handed once a block is committed: who it is, the keys
/// with which its transactions are signed, a fresh fork of the committed
/// state, and the sink for the transactions that it wants broadcast.
pub struct ServiceContext {
    service_id: u16,
    service_keypair: (PublicKey, SecretKey),
    fork: Fork,
    outbox: Vec<RawTransaction>,
}

impl ServiceContext {
    /// The transactions handed to the sink so far, in order.
    pub closed spec fn outbox(&self) -> Seq<RawTransactionView> {
        Seq::new(self.outbox@.len(), |i: int| self.outbox@[i]@)
    }

    /// The identifier of the service that the context is for.
    pub closed spec fn id(&self) -> u16 {
        self.service_id
    }

    /// The keys with which the transactions of the services are signed.
    pub closed spec fn keypair(&self) -> (PublicKey, SecretKey) {
        self.service_keypair
    }

    /// The fork that the context carries.
    pub closed spec fn fork_of(&self) -> Fork {
        self.fork
    }

    /// A context for the service `service_id`, with an empty sink.
    pub fn new(
        service_public_key: PublicKey,
        service_secret_key: SecretKey,
        fork: Fork,
        service_id: u16,
    ) -> (r: ServiceContext)
        ensures
            r.id() == service_id,
            r.keypair() == (service_public_key, service_secret_key),
            r.fork_of() == fork,
            r.outbox() == Seq::<RawTransactionView>::empty(),
    {
        let r = ServiceContext {
            service_id,
            service_keypair: (service_public_key, service_secret_key),
            fork,
            outbox: Vec::new(),
        };
        assert(r.outbox() =~= Seq::<RawTransactionView>::empty());
        r
    }

    /// The identifier of the service.
    pub fn service_id(&self) -> (r: u16)
        ensures
            r == self.id(),
    {
        self.service_id
    }

    /// The public key with which the transactions of the services are signed.
    pub fn public_key(&self) -> (r: PublicKey)
        ensures
            r == self.keypair().0,
    {
        self.service_keypair.0
    }

    /// The secret key with which the transactions of the services are signed.
    pub fn secret_key(&self) -> (r: SecretKey)
        ensures
            r == self.keypair().1,
    {
        self.service_keypair.1
    }

    /// The fork of the state as it was committed.
    pub fn fork(&self) -> (r: &Fork)
        ensures
            *r == self.fork_of(),
    {
        &self.fork
    }

    /// Hands `transaction` to the sink: it is signed with the keys of the
    /// services and sent to the network once the hooks have run.
    pub fn broadcast_transaction(&mut self, transaction: RawTransaction)
        ensures
            final(self).outbox() == old(self).outbox().push(transaction@),
            final(self).id() == old(self).id(),
            final(self).keypair() == old(self).keypair(),
            final(self).fork_of() == old(self).fork_of(),
    {
        self.outbox.push(transaction);
        assert(self.outbox() =~= old(self).outbox().push(transaction@));
    }

    /// Takes the transactions out of the sink.
    pub fn take_outbox(&mut self) -> (r: Vec<RawTransaction>)
        ensures
            Seq::new(r@.len(), |i: int| r@[i]@) == old(self).outbox(),
            final(self).outbox() == Seq::<RawTransactionView>::empty(),
            final(self).id() == old(self).id(),
            final(self).keypair() == old(self).keypair(),
            final(self).fork_of() == old(self).fork_of(),
    {
        let mut out: Vec<RawTransaction> = Vec::new();
        core::mem::swap(&mut self.outbox, &mut out);
        assert(self.outbox() =~= Seq::<RawTransactionView>::empty());
        assert(Seq::new(out@.len(), |i: int| out@[i]@) =~= old(self).outbox());
        out
    }
}

/// A service: a state machine that extends the ledger with transactions of
/// its own. Its identifier and its name are unique within a node.
///
/// The hooks and the transactions report how they ended instead of
/// unwinding: the fault barrier around the code of the service stands
/// outside this crate.
pub trait Service {
    /// Returns the identifier of the service. The registry asks for it
    /// once, when the service is registered.
    fn service_id(&self) -> u16;

    /// Returns the name of the service. The registry asks for it once, when
    /// the service is registered.
    fn service_name(&self) -> String;

    /// Returns the root hashes of the tables of the service, always in the
    /// same order. There are no more of them than an index of two bytes
    /// can number.
    fn state_hash(&self, data: &ServiceData) -> (r: Vec<crypto::Hash>)
        ensures
            r@.len() <= MAX_TABLES,
    ;

    /// Parses `raw` into a transaction that can be run.
    fn tx_from_raw(&self, raw: RawTransaction) -> Result<Box<dyn Transaction>, ParseError>;

    /// Prepares the tables of the service when the genesis block is made,
    /// and returns the initial configuration of the service.
    fn initialize(&self, data: &mut ServiceData) -> Vec<u8>;

    /// Runs after the transactions of a block, before the block is sealed.
    fn before_commit(&self, data: &mut ServiceData) -> HookOutcome;

    /// Runs after a block was committed.
    fn after_commit(&self, context: &mut ServiceContext);
}

/// A service as the registry holds it, with the identifier and the name
/// that it gave when it was registered.
pub struct ServiceEntry {
    id: u16,
    name: String,
    service: Box<dyn Service>,
}

impl ServiceEntry {
    /// The identifier under which the service is registered.
    pub closed spec fn id(&self) -> u16 {
        self.id
    }

    /// The name under which the service is registered.
    pub closed spec fn name(&self) -> Seq<char> {
        self.name@
    }

    /// The service that the entry holds.
    pub closed spec fn service_of(&self) -> &Box<dyn Service> {
        &self.service
    }

    /// The entry that holds `service` under the identifier `id` and the
    /// name `name`.
    pub closed spec fn registered(id: u16, name: String, service: &Box<dyn Service>) -> ServiceEntry {
        ServiceEntry { id, name, service: *service }
    }

    /// Registers `service` under the identifier and the name that it
    /// gives: the entry holds `service`, under the identifier and the name
    /// that the entry then has.
    pub fn new(service: Box<dyn Service>) -> (r: ServiceEntry)
        ensures
            exists|name: String|
                name@ == r.name() && r == #[trigger] ServiceEntry::registered(
                    r.id(),
                    name,
                    &service,
                ),
    {
        let id = service.service_id();
        let name = service.service_name();
        let ghost given = name;
        let entry = ServiceEntry { id, name, service };
        assert(entry == ServiceEntry::registered(entry.id(), given, &service));
        entry
    }

    /// Registers `service` under the identifier `id` and the name `name`.
    pub fn with_identity(id: u16, name: String, service: Box<dyn Service>) -> (r: ServiceEntry)
        ensures
            r.id() == id,
            r.name() == name@,
    {
        ServiceEntry { id, name, service }
    }

    /// The identifier under which the service is registered.
    pub fn service_id(&self) -> (r: u16)
        ensures
            r == self.id(),
    {
        self.id
    }

    /// The name under which the service is registered.
    pub fn service_name(&self) -> (r: String)
        ensures
            r@ == self.name(),
    {
        self.name.clone()
    }

    /// The service that the entry holds.
    pub fn service(&self) -> (r: &Box<dyn Service>)
        ensures
            r == self.service_of(),
    {
        &self.service
    }
}

/// The identifiers of `entries` ascend strictly.
pub open spec fn ids_ascending(entries: Seq<ServiceEntry>) -> bool {
    forall|i: int, j: int|
        0 <= i < j < entries.len() ==> (#[trigger] entries[i]).id() < (#[trigger] entries[j]).id()
}

/// No two of `entries` have the same identifier.
pub open spec fn ids_distinct(entries: Seq<ServiceEntry>) -> bool {
    forall|i: int, j: int|
        0 <= i < j < entries.len() ==> (#[trigger] entries[i]).id() != (#[trigger] entries[j]).id()
}

/// No two of `entries` have the same name.
pub open spec fn names_distinct(entries: Seq<ServiceEntry>) -> bool {
    forall|i: int, j: int|
        0 <= i < j < entries.len() ==> (#[trigger] entries[i]).name() != (
        #[trigger] entries[j]).name()
}

/// Some service of `entries` has the identifier `service_id`.
pub open spec fn has_service(entries: Seq<ServiceEntry>, service_id: u16) -> bool {
    exists|i: int| 0 <= i < entries.len() && (#[trigger] entries[i]).id() == service_id
}

/// Looks for an identifier that two of `services` share.
pub fn find_duplicate_id(services: &Vec<ServiceEntry>) -> (r: Option<u16>)
    ensures
        r is None == ids_distinct(services@),
        r matches Some(id) ==> exists|i: int, j: int|
            0 <= i < j < services@.len() && (#[trigger] services@[i]).id() == id && (
            #[trigger] services@[j]).id() == id,
{
    let mut j: usize = 0;
    while j < services.len()
        invariant
            0 <= j <= services@.len(),
            forall|a: int, b: int|
                0 <= a < b < j ==> (#[trigger] services@[a]).id() != (#[trigger] services@[b]).id(),
        decreases services@.len() - j,
    {
        let id = services[j].service_id();
        let mut i: usize = 0;
        while i < j
            invariant
                0 <= i <= j < services@.len(),
                id == services@[j as int].id(),
                forall|a: int| 0 <= a < i ==> (#[trigger] services@[a]).id() != id,
            decreases j - i,
        {
            if services[i].service_id() == id {
                assert(services@[i as int].id() == id && services@[j as int].id() == id);
                return Some(id);
            }
            i += 1;
        }
        j += 1;
    }
    None
}

/// The services of a node, in ascending order of identifier.
pub struct ServiceMap {
    entries: Vec<ServiceEntry>,
}

impl ServiceMap {
    /// The identifiers of the services ascend strictly.
    #[verifier::type_invariant]
    pub closed spec fn wf(&self) -> bool {
        ids_ascending(self.entries@)
    }

    /// The services, in ascending order of identifier.
    pub closed spec fn entries(&self) -> Seq<ServiceEntry> {
        self.entries@
    }

    /// The services are in ascending order of identifier.
    pub proof fn lemma_ascending(&self)
        requires
            self.wf(),
        ensures
            ids_ascending(self.entries()),
    {
    }

    /// Builds the registry of `services`.
    pub fn new(services: Vec<ServiceEntry>) -> (r: ServiceMap)
        requires
            ids_distinct(services@),
        ensures
            r.wf(),
            r.entries().to_multiset() == services@.to_multiset(),
    {
        let ghost given = services@;
        let mut rest = services;
        let mut sorted: Vec<ServiceEntry> = Vec::new();
        assert(rest@.to_multiset().add(sorted@.to_multiset()) =~= given.to_multiset())
            by {
            assert(sorted@.to_multiset() =~= Multiset::empty()) by {
                sorted@.to_multiset_ensures();
            }
        }
        while rest.len() > 0
            invariant
                ids_distinct(rest@),
                ids_ascending(sorted@),
                forall|a: int, b: int|
                    0 <= a < rest@.len() && 0 <= b < sorted@.len() ==> (#[trigger] rest@[a]).id()
                        != (#[trigger] sorted@[b]).id(),
                rest@.to_multiset().add(sorted@.to_multiset()) == given.to_multiset(),
            decreases rest@.len(),
        {
            let ghost rest_before = rest@;
            let ghost sorted_before = sorted@;
            let last = rest.len() - 1;
            let entry = rest.remove(last);
            let id = entry.service_id();
            let ghost added = entry;
            let mut p: usize = 0;
            while p < sorted.len() && sorted[p].service_id() < id
                invariant
                    0 <= p <= sorted@.len(),
                    forall|b: int| 0 <= b < p ==> (#[trigger] sorted@[b]).id() < id,
                decreases sorted@.len() - p,
            {
                p += 1;
            }
            sorted.insert(p, entry);
            proof {
                let rest_after = rest@;
                sorted_before.insert_ensures(p as int, added);
                let ins = sorted_before.insert(p as int, added);
                assert(sorted@ == ins);
                assert(rest_before[last as int] == added);
                assert(rest_after =~= rest_before.remove(last as int));
                assert forall|b: int| p < b < ins.len() implies #[trigger] ins[b] == sorted_before[b
                    - 1] by {
                    assert(ins[(b - 1) + 1] == sorted_before[b - 1]);
                }
                assert forall|a: int, b: int| 0 <= a < b < ins.len() implies (#[trigger] ins[a]).id()
                    < (#[trigger] ins[b]).id() by {
                    let a0 = if a < p { a } else { a - 1 };
                    let b0 = if b < p { b } else { b - 1 };
                    if a == p {
                        assert(ins[b] == sorted_before[b0]);
                        if p < b0 {
                            assert(sorted_before[p as int].id() < sorted_before[b0].id());
                        }
                        assert(rest_before[last as int].id() != sorted_before[p as int].id());
                    } else if b == p {
                        assert(ins[a] == sorted_before[a0]);
                        assert(sorted_before[a0].id() < id);
                    } else {
                        assert(ins[a] == sorted_before[a0]);
                        assert(ins[b] == sorted_before[b0]);
                        assert(sorted_before[a0].id() < sorted_before[b0].id());
                    }
                }
                assert forall|a: int, b: int| 0 <= a < rest@.len() && 0 <= b < ins.len() implies (
                #[trigger] rest_after[a]).id() != (#[trigger] ins[b]).id() by {
                    let b0 = if b < p { b } else { b - 1 };
                    assert(rest_after[a] == rest_before[a]);
                    if b == p {
                        assert(rest_before[a].id() != rest_before[last as int].id());
                    } else {
                        assert(ins[b] == sorted_before[b0]);
                        assert(rest_before[a].id() != sorted_before[b0].id());
                    }
                }
                assert forall|a: int, b: int| 0 <= a < b < rest_after.len() implies (
                #[trigger] rest_after[a]).id() != (#[trigger] rest_after[b]).id() by {
                    assert(rest_after[a] == rest_before[a]);
                    assert(rest_after[b] == rest_before[b]);
                    assert(rest_before[a].id() != rest_before[b].id());
                }
                to_multiset_remove(rest_before, last as int);
                to_multiset_insert(sorted_before, p as int, added);
                assert(rest_before.to_multiset().count(added) > 0) by {
                    rest_before.to_multiset_ensures();
                    assert(rest_before.contains(added));
                }
                assert(rest_after.to_multiset().add(sorted@.to_multiset())
                    =~= rest_before.to_multiset().add(sorted_before.to_multiset()));
            }
        }
        assert(rest@.to_multiset() =~= Multiset::empty()) by {
            rest@.to_multiset_ensures();
        }
        assert(sorted@.to_multiset() =~= given.to_multiset());
        ServiceMap { entries: sorted }
    }

    /// The number of services.
    pub fn len(&self) -> (r: usize)
        ensures
            r == self.entries().len(),
    {
        self.entries.len()
    }

    /// The service at position `index` in ascending order of identifier.
    pub fn get(&self, index: usize) -> (r: &ServiceEntry)
        requires
            index < self.entries().len(),
        ensures
            *r == self.entries()[index as int],
    {
        &self.entries[index]
    }

    /// Looks for the position of the service with the identifier
    /// `service_id`.
    pub fn find(&self, service_id: u16) -> (r: Option<usize>)
        ensures
            r is Some == has_service(self.entries(), service_id),
            r matches Some(i) ==> i < self.entries().len() && self.entries()[i as int].id()
                == service_id,
    {
        let mut i: usize = 0;
        while i < self.entries.len()
            invariant
                0 <= i <= self.entries@.len(),
                forall|j: int| 0 <= j < i ==> (#[trigger] self.entries@[j]).id() != service_id,
            decreases self.entries@.len() - i,
        {
            if self.entries[i].service_id() == service_id {
                return Some(i);
            }
            i += 1;
        }
        None
    }

    /// Tells whether a service has the identifier `service_id`.
    pub fn contains_key(&self, service_id: u16) -> (r: bool)
        ensures
            r == has_service(self.entries(), service_id),
    {
        self.find(service_id).is_some()
    }

    /// Looks for a name that two services share.
    pub fn find_duplicate_name(&self) -> (r: Option<String>)
        ensures
            r is None == names_distinct(self.entries()),
            r matches Some(name) ==> exists|i: int, j: int|
                0 <= i < j < self.entries().len() && (#[trigger] self.entries()[i]).name() == name@
                    && (#[trigger] self.entries()[j]).name() == name@,
    {
        let mut j: usize = 0;
        while j < self.entries.len()
            invariant
                0 <= j <= self.entries@.len(),
                forall|a: int, b: int|
                    0 <= a < b < j ==> (#[trigger] self.entries@[a]).name() != (
                    #[trigger] self.entries@[b]).name(),
            decreases self.entries@.len() - j,
        {
            let name = self.entries[j].service_name();
            let mut i: usize = 0;
            while i < j
                invariant
                    0 <= i <= j < self.entries@.len(),
                    name@ == self.entries@[j as int].name(),
                    forall|a: int| 0 <= a < i ==> (#[trigger] self.entries@[a]).name() != name@,
                decreases j - i,
            {
                let other = self.entries[i].service_name();
                if other == name {
                    assert(self.entries()[i as int].name() == name@ && self.entries()[j as int].name()
                        == name@);
                    return Some(name);
                }
                i += 1;
            }
            j += 1;
        }
        None
    }
}

} // verus!
