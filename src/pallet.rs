//! The record store and the owner-gated operations on it.
use std::collections::HashMap;
use vstd::prelude::*;

use crate::biodata::{AccountId, BiodataView, Error, PatientBiodata};

verus! {

broadcast use vstd::std_specs::hash::group_hash_axioms;

/// A notification emitted after an operation has been applied.
#[derive(Clone, Copy, Debug, PartialEq, Eq, Structural)]
pub enum Event {
    /// A record was created: owner, record id.
    NewRecordCreated(AccountId, u64),
    /// Access was granted: owner, grantee, record id.
    NewAccessGranted(AccountId, AccountId, u64),
    /// Access was revoked: owner, grantee, record id.
    AccessRevoked(AccountId, AccountId, u64),
}

/// The mathematical value of a [`Pallet`].
pub struct PalletView {
    /// The last record id handed out; zero before the first.
    pub last_id: u64,
    /// The stored records, by record id.
    pub records: Map<u64, BiodataView>,
    /// The notifications emitted so far, oldest first.
    pub events: Seq<Event>,
}

impl PalletView {
    /// The state before any operation.
    pub open spec fn genesis() -> PalletView {
        PalletView { last_id: 0, records: Map::empty(), events: Seq::empty() }
    }

    /// Every record is stored under its own id, that id has been handed out
    /// already, and its access list is well formed.
    pub open spec fn wf(self) -> bool {
        forall|k: u64| #[trigger]
            self.records.contains_key(k) ==> {
                &&& 1 <= k <= self.last_id
                &&& self.records[k].record_id == k
                &&& self.records[k].wf()
            }
    }

    /// The state after storing `rec` under `id`.
    pub open spec fn with_record(self, id: u64, rec: BiodataView) -> PalletView {
        PalletView { records: self.records.insert(id, rec), ..self }
    }

    /// The state after emitting `e`.
    pub open spec fn with_event(self, e: Event) -> PalletView {
        PalletView { events: self.events.push(e), ..self }
    }

    /// What creating a record on behalf of `caller` yields: the next id, a
    /// record owned by `caller` with an empty access list, and a notification.
    pub open spec fn create_step(
        self,
        caller: AccountId,
        name: Seq<u8>,
        sex: Seq<u8>,
        age: u16,
    ) -> (PalletView, Result<u64, Error>) {
        if self.last_id == u64::MAX {
            (self, Err(Error::StorageOverflow))
        } else {
            let id = (self.last_id + 1) as u64;
            let rec = BiodataView {
                patient_id: caller,
                name,
                sex,
                age,
                record_id: id,
                access: Seq::empty(),
            };
            (
                PalletView { last_id: id, ..self }.with_record(id, rec).with_event(
                    Event::NewRecordCreated(caller, id),
                ),
                Ok(id),
            )
        }
    }

    /// What `caller` granting `grantee` access to record `id` yields.
    pub open spec fn grant_step(self, caller: AccountId, grantee: AccountId, id: u64) -> (
        PalletView,
        Result<(), Error>,
    ) {
        if !self.records.contains_key(id) {
            (self, Err(Error::RecordDoesNotExist))
        } else {
            match self.records[id].grant_spec(caller, grantee) {
                Err(e) => (self, Err(e)),
                Ok(rec) => (
                    self.with_record(id, rec).with_event(
                        Event::NewAccessGranted(caller, grantee, id),
                    ),
                    Ok(()),
                ),
            }
        }
    }

    /// What `caller` revoking the access of `grantee` to record `id` yields.
    pub open spec fn revoke_step(self, caller: AccountId, grantee: AccountId, id: u64) -> (
        PalletView,
        Result<(), Error>,
    ) {
        if !self.records.contains_key(id) {
            (self, Err(Error::RecordDoesNotExist))
        } else {
            match self.records[id].revoke_spec(caller, grantee) {
                Err(e) => (self, Err(e)),
                Ok(rec) => (
                    self.with_record(id, rec).with_event(Event::AccessRevoked(caller, grantee, id)),
                    Ok(()),
                ),
            }
        }
    }
}

/// The record store: records keyed by id, the id allocator, and the
/// notifications emitted so far.
pub struct Pallet {
    last_id: u64,
    biodata: HashMap<u64, PatientBiodata>,
    events: Vec<Event>,
}

impl View for Pallet {
    type V = PalletView;

    closed spec fn view(&self) -> PalletView {
        PalletView {
            last_id: self.last_id,
            records: Map::new(
                |k: u64| self.biodata@.contains_key(k),
                |k: u64| self.biodata@[k]@,
            ),
            events: self.events@,
        }
    }
}

impl Pallet {
    /// An empty store whose first record id will be 1.
    pub fn new() -> (p: Pallet)
        ensures
            p@ == PalletView::genesis(),
            p@.wf(),
    {
        let p = Pallet { last_id: 0, biodata: HashMap::new(), events: Vec::new() };
        proof {
            assert(p@.records =~= Map::<u64, BiodataView>::empty());
            assert(p@.events =~= Seq::<Event>::empty());
        }
        p
    }

    /// An empty store whose allocator resumes after `last_id`, as when the
    /// host restores a persisted counter; the next record id is `last_id + 1`.
    pub fn starting_after(last_id: u64) -> (p: Pallet)
        ensures
            p@ == (PalletView { last_id, ..PalletView::genesis() }),
            p@.wf(),
    {
        let p = Pallet { last_id, biodata: HashMap::new(), events: Vec::new() };
        proof {
            assert(p@.records =~= Map::<u64, BiodataView>::empty());
            assert(p@.events =~= Seq::<Event>::empty());
        }
        p
    }

    /// Hands out the next record id and advances the allocator.
    ///
    /// Refused with `StorageOverflow` once the allocator has reached the
    /// largest `u64`: an id is never handed out twice.
    pub fn allocate_id(&mut self) -> (r: Result<u64, Error>)
        ensures
            match r {
                Ok(id) => {
                    &&& old(self)@.last_id < u64::MAX
                    &&& id == old(self)@.last_id + 1
                    &&& final(self)@ == (PalletView { last_id: id, ..old(self)@ })
                },
                Err(e) => {
                    &&& e == Error::StorageOverflow
                    &&& old(self)@.last_id == u64::MAX
                    &&& final(self)@ == old(self)@
                },
            },
    {
        if self.last_id == u64::MAX {
            return Err(Error::StorageOverflow);
        }
        self.last_id = self.last_id + 1;
        Ok(self.last_id)
    }

    /// The record stored under `record_id`.
    pub fn get(&self, record_id: u64) -> (r: Result<&PatientBiodata, Error>)
        ensures
            match r {
                Ok(rec) => self@.records.contains_key(record_id) && rec@ == self@.records[record_id],
                Err(e) => e == Error::RecordDoesNotExist && !self@.records.contains_key(record_id),
            },
    {
        match self.biodata.get(&record_id) {
            Some(rec) => Ok(rec),
            None => Err(Error::RecordDoesNotExist),
        }
    }

    /// Stores `record` under its own id, which must not be taken yet.
    pub(crate) fn insert(&mut self, record: PatientBiodata)
        requires
            !old(self)@.records.contains_key(record.record_id),
        ensures
            final(self)@ == old(self)@.with_record(record.record_id, record@),
    {
        let ghost rec = record@;
        let id = record.record_id;
        self.biodata.insert(id, record);
        proof {
            assert(self@.records =~= old(self)@.records.insert(id, rec));
        }
    }

    /// Overwrites the record stored under `record_id` with `updated`, which
    /// keeps its id and its owner.
    pub(crate) fn replace(&mut self, record_id: u64, updated: PatientBiodata)
        requires
            old(self)@.records.contains_key(record_id),
            updated.record_id == record_id,
            updated.patient_id == old(self)@.records[record_id].patient_id,
        ensures
            final(self)@ == old(self)@.with_record(record_id, updated@),
    {
        let ghost rec = updated@;
        self.biodata.insert(record_id, updated);
        proof {
            assert(self@.records =~= old(self)@.records.insert(record_id, rec));
        }
    }

    fn deposit_event(&mut self, e: Event)
        ensures
            final(self)@ == old(self)@.with_event(e),
    {
        self.events.push(e);
        proof {
            assert(self@.records =~= old(self)@.records);
        }
    }

    /// Creates a record owned by `origin` with an empty access list, and
    /// returns its id: one more than the id handed out before.
    ///
    /// Refused with `StorageOverflow` once the id allocator is exhausted.
    pub fn create_new_record(&mut self, origin: AccountId, name: Vec<u8>, sex: Vec<u8>, age: u16) -> (r:
        Result<u64, Error>)
        requires
            old(self)@.wf(),
        ensures
            (final(self)@, r) == old(self)@.create_step(origin, name@, sex@, age),
            final(self)@.wf(),
    {
        let record_id = match self.allocate_id() {
            Ok(id) => id,
            Err(e) => return Err(e),
        };
        let record = PatientBiodata::new(origin, name, sex, age, record_id);
        proof {
            if self@.records.contains_key(record_id) {
                assert(old(self)@.records.contains_key(record_id));
            }
        }
        self.insert(record);
        self.deposit_event(Event::NewRecordCreated(origin, record_id));
        proof {
            let s = self@;
            assert forall|k: u64| #[trigger] s.records.contains_key(k) implies {
                &&& 1 <= k <= s.last_id
                &&& s.records[k].record_id == k
                &&& s.records[k].wf()
            } by {
                if k != record_id {
                    assert(old(self)@.records.contains_key(k));
                }
            }
        }
        Ok(record_id)
    }

    /// Lets `origin`, the owner of record `record_id`, give `access_id`
    /// access to it, appending `access_id` to the access list.
    ///
    /// Refused, in this order, with `RecordDoesNotExist` when no such record
    /// is stored, `PermissionDenied` when `origin` is not its owner, and
    /// `AccessExist` when `access_id` already has access or is the owner.
    pub fn grant_access(&mut self, origin: AccountId, access_id: AccountId, record_id: u64) -> (r:
        Result<(), Error>)
        requires
            old(self)@.wf(),
        ensures
            (final(self)@, r) == old(self)@.grant_step(origin, access_id, record_id),
            final(self)@.wf(),
    {
        let record = match self.get(record_id) {
            Ok(rec) => rec,
            Err(e) => return Err(e),
        };
        let updated = match record.granted(origin, access_id) {
            Ok(rec) => rec,
            Err(e) => return Err(e),
        };
        proof {
            let a = old(self)@.records[record_id].access;
            assert(updated@.access == a.push(access_id));
            assert(updated@.access.no_duplicates()) by {
                assert forall|i: int, j: int|
                    0 <= i < updated@.access.len() && 0 <= j < updated@.access.len() && i
                        != j implies updated@.access[i] != updated@.access[j] by {
                    if i == a.len() as int {
                        assert(a[j] == updated@.access[j]);
                    } else if j == a.len() as int {
                        assert(a[i] == updated@.access[i]);
                    }
                }
            }
            assert(!updated@.access.contains(updated@.patient_id)) by {
                if updated@.access.contains(updated@.patient_id) {
                    let i = choose|i: int|
                        0 <= i < updated@.access.len() && updated@.access[i]
                            == updated@.patient_id;
                    if i < a.len() {
                        assert(a.contains(updated@.patient_id));
                    }
                }
            }
        }
        self.replace(record_id, updated);
        self.deposit_event(Event::NewAccessGranted(origin, access_id, record_id));
        proof {
            let s = self@;
            assert forall|k: u64| #[trigger] s.records.contains_key(k) implies {
                &&& 1 <= k <= s.last_id
                &&& s.records[k].record_id == k
                &&& s.records[k].wf()
            } by {
                assert(old(self)@.records.contains_key(k));
            }
        }
        Ok(())
    }

    /// Lets `origin`, the owner of record `record_id`, take back the access
    /// of `access_id`, removing it from the access list; the other entries
    /// keep their order.
    ///
    /// Refused, in this order, with `RecordDoesNotExist` when no such record
    /// is stored, `PermissionDenied` when `origin` is not its owner, and
    /// `AccessDoesNotExist` when `access_id` is not in the access list.
    pub fn revoke_access(&mut self, origin: AccountId, access_id: AccountId, record_id: u64) -> (r:
        Result<(), Error>)
        requires
            old(self)@.wf(),
        ensures
            (final(self)@, r) == old(self)@.revoke_step(origin, access_id, record_id),
            final(self)@.wf(),
    {
        let record = match self.get(record_id) {
            Ok(rec) => rec,
            Err(e) => return Err(e),
        };
        proof {
            assert(old(self)@.records.contains_key(record_id));
        }
        let updated = match record.revoked(origin, access_id) {
            Ok(rec) => rec,
            Err(e) => return Err(e),
        };
        proof {
            let a = old(self)@.records[record_id].access;
            let x = a.index_of(access_id);
            assert(updated@.access == a.remove(x));
            assert(updated@.access.no_duplicates()) by {
                assert forall|i: int, j: int|
                    0 <= i < updated@.access.len() && 0 <= j < updated@.access.len() && i
                        != j implies updated@.access[i] != updated@.access[j] by {
                    let ii = if i < x { i } else { i + 1 };
                    let jj = if j < x { j } else { j + 1 };
                    assert(updated@.access[i] == a[ii]);
                    assert(updated@.access[j] == a[jj]);
                }
            }
            assert(!updated@.access.contains(updated@.patient_id)) by {
                if updated@.access.contains(updated@.patient_id) {
                    let i = choose|i: int|
                        0 <= i < updated@.access.len() && updated@.access[i]
                            == updated@.patient_id;
                    let ii = if i < x { i } else { i + 1 };
                    assert(updated@.access[i] == a[ii]);
                    assert(a.contains(updated@.patient_id));
                }
            }
        }
        self.replace(record_id, updated);
        self.deposit_event(Event::AccessRevoked(origin, access_id, record_id));
        proof {
            let s = self@;
            assert forall|k: u64| #[trigger] s.records.contains_key(k) implies {
                &&& 1 <= k <= s.last_id
                &&& s.records[k].record_id == k
                &&& s.records[k].wf()
            } by {
                assert(old(self)@.records.contains_key(k));
            }
        }
        Ok(())
    }

    /// The notifications emitted so far, oldest first.
    pub fn events(&self) -> (r: &Vec<Event>)
        ensures
            r@ == self@.events,
    {
        &self.events
    }

    /// The last record id handed out, if any has been.
    pub fn record_id(&self) -> (r: Option<u64>)
        ensures
            r == (if self@.last_id == 0 {
                None
            } else {
                Some(self@.last_id)
            }),
    {
        if self.last_id == 0 {
            None
        } else {
            Some(self.last_id)
        }
    }
}

} // verus!
