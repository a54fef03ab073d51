//! Patient biodata records with an owner-controlled access list.
//!
//! Each record belongs to the identity that created it. Only that owner may
//! grant another identity access to the record, or revoke it again.
pub mod biodata;
pub mod laws;
pub mod pallet;

pub use biodata::{AccountId, BiodataView, Error, PatientBiodata};
pub use pallet::{Event, Pallet, PalletView};
