use pt_bio_data::{Error, Event, Pallet, PatientBiodata};

const A: u64 = 1;
const B: u64 = 2;
const C: u64 = 3;

fn store_with_record() -> Pallet {
    let mut p = Pallet::new();
    assert_eq!(p.create_new_record(A, b"foo".to_vec(), b"bar".to_vec(), 18), Ok(1));
    p
}

#[test]
fn create_record() {
    let p = store_with_record();
    let rec = p.get(1).unwrap();
    assert_eq!(rec.name, b"foo".to_vec());
    assert_eq!(rec.sex, b"bar".to_vec());
    assert_eq!(rec.age, 18);
    assert_eq!(rec.patient_id, A);
    assert_eq!(rec.record_id, 1);
    assert!(rec.access.is_empty());
}

#[test]
fn grant_access_pass() {
    let mut p = store_with_record();
    assert_eq!(p.grant_access(A, B, 1), Ok(()));
    assert!(p.get(1).unwrap().access.contains(&B));
}

#[test]
fn grant_access_fail() {
    let mut p = store_with_record();
    assert_eq!(p.grant_access(B, C, 1), Err(Error::PermissionDenied));
    assert!(!p.get(1).unwrap().access.contains(&B));
    assert!(!p.get(1).unwrap().access.contains(&C));
}

#[test]
fn revoke_access_fail() {
    let mut p = store_with_record();
    assert_eq!(p.grant_access(A, B, 1), Ok(()));
    assert_eq!(p.revoke_access(B, B, 1), Err(Error::PermissionDenied));
    assert!(p.get(1).unwrap().access.contains(&B));
}

#[test]
fn revoke_access_pass() {
    let mut p = store_with_record();
    assert_eq!(p.grant_access(A, B, 1), Ok(()));
    assert_eq!(p.revoke_access(A, B, 1), Ok(()));
    assert!(!p.get(1).unwrap().access.contains(&B));
}

#[test]
fn ids_strictly_increase() {
    let mut p = Pallet::new();
    assert_eq!(p.record_id(), None);
    let a = p.create_new_record(A, vec![], vec![], 1).unwrap();
    assert_eq!(p.grant_access(A, B, a), Ok(()));
    let b = p.create_new_record(B, vec![], vec![], 2).unwrap();
    let c = p.create_new_record(A, vec![], vec![], 3).unwrap();
    assert_eq!((a, b, c), (1, 2, 3));
    assert_eq!(p.record_id(), Some(3));
    assert_eq!(p.get(2).unwrap().patient_id, B);
}

#[test]
fn allocate_id_counts_from_one() {
    let mut p = Pallet::new();
    assert_eq!(p.allocate_id(), Ok(1));
    assert_eq!(p.allocate_id(), Ok(2));
    assert_eq!(p.create_new_record(A, vec![], vec![], 0), Ok(3));
}

#[test]
fn allocator_exhausted() {
    let mut p = Pallet::starting_after(u64::MAX - 1);
    assert_eq!(p.create_new_record(A, vec![], vec![], 0), Ok(u64::MAX));
    assert_eq!(p.create_new_record(A, vec![], vec![], 0), Err(Error::StorageOverflow));
    assert_eq!(p.allocate_id(), Err(Error::StorageOverflow));
    assert_eq!(p.record_id(), Some(u64::MAX));
    assert_eq!(p.events().len(), 1);
}

#[test]
fn grant_twice_rejected() {
    let mut p = store_with_record();
    assert_eq!(p.grant_access(A, B, 1), Ok(()));
    assert_eq!(p.grant_access(A, B, 1), Err(Error::AccessExist));
    assert_eq!(p.get(1).unwrap().access, vec![B]);
}

#[test]
fn grant_to_owner_rejected() {
    let mut p = store_with_record();
    assert_eq!(p.grant_access(A, A, 1), Err(Error::AccessExist));
    assert!(p.get(1).unwrap().access.is_empty());
}

#[test]
fn grant_revoke_round_trip_keeps_order() {
    let mut p = store_with_record();
    assert_eq!(p.grant_access(A, B, 1), Ok(()));
    assert_eq!(p.grant_access(A, C, 1), Ok(()));
    assert_eq!(p.grant_access(A, 9, 1), Ok(()));
    assert_eq!(p.revoke_access(A, C, 1), Ok(()));
    assert_eq!(p.get(1).unwrap().access, vec![B, 9]);
    assert_eq!(p.grant_access(A, 7, 1), Ok(()));
    assert_eq!(p.revoke_access(A, 7, 1), Ok(()));
    assert_eq!(p.get(1).unwrap().access, vec![B, 9]);
}

#[test]
fn revoke_non_member_fails() {
    let mut p = store_with_record();
    assert_eq!(p.revoke_access(A, C, 1), Err(Error::AccessDoesNotExist));
    assert_eq!(p.revoke_access(A, A, 1), Err(Error::AccessDoesNotExist));
    assert!(p.get(1).unwrap().access.is_empty());
}

#[test]
fn unknown_record_fails() {
    let mut p = store_with_record();
    assert_eq!(p.grant_access(A, B, 2), Err(Error::RecordDoesNotExist));
    assert_eq!(p.revoke_access(A, B, 0), Err(Error::RecordDoesNotExist));
    assert_eq!(p.get(7), Err(Error::RecordDoesNotExist));
    // existence is checked before ownership
    assert_eq!(p.grant_access(B, C, 5), Err(Error::RecordDoesNotExist));
}

#[test]
fn events_follow_successful_calls() {
    let mut p = store_with_record();
    assert_eq!(p.grant_access(B, C, 1), Err(Error::PermissionDenied));
    assert_eq!(p.grant_access(A, B, 1), Ok(()));
    assert_eq!(p.revoke_access(A, B, 1), Ok(()));
    assert_eq!(p.revoke_access(A, B, 1), Err(Error::AccessDoesNotExist));
    assert_eq!(
        p.events().clone(),
        vec![
            Event::NewRecordCreated(A, 1),
            Event::NewAccessGranted(A, B, 1),
            Event::AccessRevoked(A, B, 1),
        ]
    );
}

#[test]
fn record_transformations() {
    let rec = PatientBiodata::new(A, b"x".to_vec(), b"y".to_vec(), 40, 5);
    assert!(rec.has_access(A));
    assert!(!rec.has_access(B));
    let g = rec.granted(A, B).unwrap();
    assert_eq!(g.access, vec![B]);
    assert!(g.has_access(B));
    assert_eq!(g.name, b"x".to_vec());
    assert_eq!(g.record_id, 5);
    assert_eq!(rec.granted(B, C), Err(Error::PermissionDenied));
    assert_eq!(g.granted(A, B), Err(Error::AccessExist));
    let r = g.revoked(A, B).unwrap();
    assert_eq!(r, rec);
    assert_eq!(g.revoked(C, B), Err(Error::PermissionDenied));
    assert_eq!(rec.revoked(A, B), Err(Error::AccessDoesNotExist));
    assert_eq!(g.copied(), g);
}
