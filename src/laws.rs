//! Properties of the record store that hold across operations.
use vstd::prelude::*;

use crate::biodata::{AccountId, BiodataView, Error};
use crate::pallet::PalletView;

verus! {

/// A successful creation hands out an id that no stored record has and that
/// is larger than every id handed out before; grant and revoke never move the
/// allocator. So ids handed out by successive creations strictly increase and
/// never repeat.
pub proof fn lemma_ids_increase(
    s: PalletView,
    caller: AccountId,
    name: Seq<u8>,
    sex: Seq<u8>,
    age: u16,
    other: AccountId,
    id: u64,
)
    requires
        s.wf(),
    ensures
        match s.create_step(caller, name, sex, age) {
            (s1, Ok(new_id)) => {
                &&& new_id > s.last_id
                &&& s1.last_id == new_id
                &&& !s.records.contains_key(new_id)
                &&& forall|k: u64| #[trigger] s.records.contains_key(k) ==> k < new_id
            },
            (s1, Err(_)) => s1 == s,
        },
        s.grant_step(caller, other, id).0.last_id == s.last_id,
        s.revoke_step(caller, other, id).0.last_id == s.last_id,
{
}

/// Two creations in a row that both succeed return strictly increasing ids.
pub proof fn lemma_successive_ids_increase(
    s: PalletView,
    c1: AccountId,
    n1: Seq<u8>,
    x1: Seq<u8>,
    a1: u16,
    c2: AccountId,
    n2: Seq<u8>,
    x2: Seq<u8>,
    a2: u16,
)
    ensures
        ({
            let (s1, r1) = s.create_step(c1, n1, x1, a1);
            let (s2, r2) = s1.create_step(c2, n2, x2, a2);
            match (r1, r2) {
                (Ok(first), Ok(second)) => first < second,
                _ => true,
            }
        }),
{
}

/// After a successful creation the new record holds exactly what was given:
/// the caller as owner, the payload, the new id and an empty access list.
pub proof fn lemma_create_then_read(
    s: PalletView,
    caller: AccountId,
    name: Seq<u8>,
    sex: Seq<u8>,
    age: u16,
)
    ensures
        match s.create_step(caller, name, sex, age) {
            (s1, Ok(id)) => {
                &&& s1.records.contains_key(id)
                &&& s1.records[id] == (BiodataView {
                    patient_id: caller,
                    name,
                    sex,
                    age,
                    record_id: id,
                    access: Seq::empty(),
                })
            },
            (s1, Err(e)) => e == Error::StorageOverflow && s1 == s,
        },
{
}

/// Granting the same identity twice: the first grant appends it to the
/// access list, the second is refused with `AccessExist` and changes nothing.
pub proof fn lemma_grant_twice_rejected(
    s: PalletView,
    owner: AccountId,
    grantee: AccountId,
    id: u64,
)
    requires
        s.records.contains_key(id),
        s.records[id].patient_id == owner,
        !s.records[id].can_read(grantee),
    ensures
        ({
            let (s1, r1) = s.grant_step(owner, grantee, id);
            let (s2, r2) = s1.grant_step(owner, grantee, id);
            &&& r1 == Ok::<(), Error>(())
            &&& s1.records[id].access == s.records[id].access.push(grantee)
            &&& r2 == Err::<(), Error>(Error::AccessExist)
            &&& s2 == s1
        }),
{
    let (s1, r1) = s.grant_step(owner, grantee, id);
    assert(s1.records[id].access.contains(grantee)) by {
        assert(s1.records[id].access[s.records[id].access.len() as int] == grantee);
    }
}

/// Only the owner changes a record's access list: anyone else is refused with
/// `PermissionDenied`, on grant and on revoke, and the state stays as it was.
pub proof fn lemma_only_owner_mutates(s: PalletView, caller: AccountId, who: AccountId, id: u64)
    requires
        s.records.contains_key(id),
        caller != s.records[id].patient_id,
    ensures
        s.grant_step(caller, who, id) == (s, Err::<(), Error>(Error::PermissionDenied)),
        s.revoke_step(caller, who, id) == (s, Err::<(), Error>(Error::PermissionDenied)),
{
}

/// A grant followed by a revoke of the same identity leaves every record,
/// and the allocator, as they were before the grant.
pub proof fn lemma_grant_revoke_round_trip(
    s: PalletView,
    owner: AccountId,
    grantee: AccountId,
    id: u64,
)
    requires
        s.records.contains_key(id),
        s.records[id].patient_id == owner,
        !s.records[id].can_read(grantee),
    ensures
        ({
            let (s1, r1) = s.grant_step(owner, grantee, id);
            let (s2, r2) = s1.revoke_step(owner, grantee, id);
            &&& r1 == Ok::<(), Error>(())
            &&& r2 == Ok::<(), Error>(())
            &&& s2.records == s.records
            &&& s2.last_id == s.last_id
        }),
{
    let rec = s.records[id];
    let a = rec.access;
    let b = a.push(grantee);
    let (s1, r1) = s.grant_step(owner, grantee, id);
    assert(s1.records[id].access == b);
    assert(b[a.len() as int] == grantee);
    assert(b.contains(grantee));
    let i = b.index_of(grantee);
    assert(i == a.len()) by {
        if i < a.len() {
            assert(a[i] == grantee);
            assert(a.contains(grantee));
        }
    }
    assert(b.remove(i) =~= a);
    let (s2, r2) = s1.revoke_step(owner, grantee, id);
    assert(s2.records[id] == rec);
    assert(s2.records =~= s.records);
}

/// Revoking an identity that is not in the access list is refused with
/// `AccessDoesNotExist` and changes nothing.
pub proof fn lemma_revoke_non_member(s: PalletView, owner: AccountId, who: AccountId, id: u64)
    requires
        s.records.contains_key(id),
        s.records[id].patient_id == owner,
        !s.records[id].access.contains(who),
    ensures
        s.revoke_step(owner, who, id) == (s, Err::<(), Error>(Error::AccessDoesNotExist)),
{
}

/// An id that no creation has returned names no record: grant and revoke on
/// it are refused with `RecordDoesNotExist` and change nothing.
pub proof fn lemma_unknown_record(s: PalletView, caller: AccountId, who: AccountId, id: u64)
    requires
        s.wf(),
        id == 0 || id > s.last_id,
    ensures
        s.grant_step(caller, who, id) == (s, Err::<(), Error>(Error::RecordDoesNotExist)),
        s.revoke_step(caller, who, id) == (s, Err::<(), Error>(Error::RecordDoesNotExist)),
{
    assert(!s.records.contains_key(id));
}

} // verus!
