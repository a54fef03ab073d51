//! The record type, its errors, and the pure access-list transformations.
use vstd::prelude::*;

verus! {

/// An authenticated caller identity, supplied by the host and only compared.
pub type AccountId = u64;

/// Why an operation was refused. Every refusal leaves the state untouched.
#[derive(Clone, Copy, Debug, PartialEq, Eq, Structural)]
pub enum Error {
    /// The caller is not the owner of the record.
    PermissionDenied,
    /// No record is stored under the given id.
    RecordDoesNotExist,
    /// The identity already has access (or is the owner).
    AccessExist,
    /// The identity does not have access.
    AccessDoesNotExist,
    /// The record id allocator is exhausted.
    StorageOverflow,
}

/// One patient's record.
#[derive(Clone, Debug, PartialEq, Eq)]
pub struct PatientBiodata {
    /// The identity that created the record; it alone may change `access`.
    pub patient_id: AccountId,
    pub name: Vec<u8>,
    pub sex: Vec<u8>,
    pub age: u16,
    /// The key under which the record is stored.
    pub record_id: u64,
    /// Identities other than the owner that may read the record.
    pub access: Vec<AccountId>,
}

/// The mathematical value of a [`PatientBiodata`].
pub struct BiodataView {
    pub patient_id: AccountId,
    pub name: Seq<u8>,
    pub sex: Seq<u8>,
    pub age: u16,
    pub record_id: u64,
    pub access: Seq<AccountId>,
}

impl View for PatientBiodata {
    type V = BiodataView;

    open spec fn view(&self) -> BiodataView {
        BiodataView {
            patient_id: self.patient_id,
            name: self.name@,
            sex: self.sex@,
            age: self.age,
            record_id: self.record_id,
            access: self.access@,
        }
    }
}

impl BiodataView {
    /// The access list holds no identity twice and never the owner.
    pub open spec fn wf(self) -> bool {
        &&& self.access.no_duplicates()
        &&& !self.access.contains(self.patient_id)
    }

    /// Whether `who` may read the record: the owner, or a listed identity.
    pub open spec fn can_read(self, who: AccountId) -> bool {
        who == self.patient_id || self.access.contains(who)
    }

    /// The record with `access` replaced.
    pub open spec fn with_access(self, access: Seq<AccountId>) -> BiodataView {
        BiodataView { access, ..self }
    }

    /// What granting `grantee` access on behalf of `caller` yields.
    pub open spec fn grant_spec(self, caller: AccountId, grantee: AccountId) -> Result<
        BiodataView,
        Error,
    > {
        if caller != self.patient_id {
            Err(Error::PermissionDenied)
        } else if grantee == self.patient_id || self.access.contains(grantee) {
            Err(Error::AccessExist)
        } else {
            Ok(self.with_access(self.access.push(grantee)))
        }
    }

    /// What revoking the access of `grantee` on behalf of `caller` yields.
    pub open spec fn revoke_spec(self, caller: AccountId, grantee: AccountId) -> Result<
        BiodataView,
        Error,
    > {
        if caller != self.patient_id {
            Err(Error::PermissionDenied)
        } else if !self.access.contains(grantee) {
            Err(Error::AccessDoesNotExist)
        } else {
            Ok(self.with_access(self.access.remove(self.access.index_of(grantee))))
        }
    }
}

/// A copy of `v`, element by element.
fn copy_vec<T: Copy>(v: &Vec<T>) -> (r: Vec<T>)
    ensures
        r@ == v@,
{
    let mut r: Vec<T> = Vec::with_capacity(v.len());
    let mut i: usize = 0;
    while i < v.len()
        invariant
            i <= v.len(),
            r@ == v@.subrange(0, i as int),
        decreases v.len() - i,
    {
        r.push(v[i]);
        i += 1;
        proof {
            assert(r@ =~= v@.subrange(0, i as int));
        }
    }
    proof {
        assert(r@ =~= v@);
    }
    r
}

/// The position of `x` in `v`, if it occurs there.
fn position(v: &Vec<AccountId>, x: AccountId) -> (r: Option<usize>)
    ensures
        match r {
            Some(i) => i < v@.len() && v@[i as int] == x,
            None => !v@.contains(x),
        },
{
    let mut i: usize = 0;
    while i < v.len()
        invariant
            i <= v.len(),
            forall|j: int| 0 <= j < i ==> v@[j] != x,
        decreases v.len() - i,
    {
        if v[i] == x {
            return Some(i);
        }
        i += 1;
    }
    None
}

impl PatientBiodata {
    /// A new record owned by `patient_id`, with an empty access list.
    pub fn new(patient_id: AccountId, name: Vec<u8>, sex: Vec<u8>, age: u16, record_id: u64) -> (r:
        PatientBiodata)
        ensures
            r@ == (BiodataView { patient_id, name: name@, sex: sex@, age, record_id, access: seq![] }),
    {
        PatientBiodata { patient_id, name, sex, age, record_id, access: Vec::new() }
    }

    /// A field-by-field copy of the record.
    pub fn copied(&self) -> (r: PatientBiodata)
        ensures
            r@ == self@,
    {
        PatientBiodata {
            patient_id: self.patient_id,
            name: copy_vec(&self.name),
            sex: copy_vec(&self.sex),
            age: self.age,
            record_id: self.record_id,
            access: copy_vec(&self.access),
        }
    }

    /// Whether `who` may read the record: the owner or a listed identity.
    pub fn has_access(&self, who: AccountId) -> (r: bool)
        ensures
            r == self@.can_read(who),
    {
        who == self.patient_id || position(&self.access, who).is_some()
    }

    /// The record after `caller` grants `grantee` access to it.
    ///
    /// Refused with `PermissionDenied` unless `caller` owns the record, and
    /// with `AccessExist` where `grantee` can already read it.
    pub fn granted(&self, caller: AccountId, grantee: AccountId) -> (r: Result<PatientBiodata, Error>)
        ensures
            match r {
                Ok(rec) => self@.grant_spec(caller, grantee) == Ok::<BiodataView, Error>(rec@),
                Err(e) => self@.grant_spec(caller, grantee) == Err::<BiodataView, Error>(e),
            },
    {
        if caller != self.patient_id {
            return Err(Error::PermissionDenied);
        }
        if self.has_access(grantee) {
            return Err(Error::AccessExist);
        }
        let mut rec = self.copied();
        rec.access.push(grantee);
        proof {
            assert(rec@ =~= self@.with_access(self@.access.push(grantee)));
        }
        Ok(rec)
    }

    /// The record after `caller` revokes the access of `grantee`.
    ///
    /// Refused with `PermissionDenied` unless `caller` owns the record, and
    /// with `AccessDoesNotExist` where `grantee` is not in the access list.
    pub fn revoked(&self, caller: AccountId, grantee: AccountId) -> (r: Result<PatientBiodata, Error>)
        requires
            self@.wf(),
        ensures
            match r {
                Ok(rec) => self@.revoke_spec(caller, grantee) == Ok::<BiodataView, Error>(rec@),
                Err(e) => self@.revoke_spec(caller, grantee) == Err::<BiodataView, Error>(e),
            },
    {
        if caller != self.patient_id {
            return Err(Error::PermissionDenied);
        }
        match position(&self.access, grantee) {
            None => Err(Error::AccessDoesNotExist),
            Some(i) => {
                let mut rec = self.copied();
                rec.access.remove(i);
                proof {
                    let j = self@.access.index_of(grantee);
                    assert(self@.access.contains(grantee));
                    assert(0 <= j < self@.access.len() && self@.access[j] == grantee);
                    assert(j == i);
                    assert(rec@ =~= self@.with_access(self@.access.remove(j)));
                }
                Ok(rec)
            },
        }
    }
}

} // verus!
