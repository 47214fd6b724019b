//! Certificate registry: a bounded admin list that gates record creation,
//! deterministic record addresses, length-capped text fields, and
//! owner-gated updates of a record's file pointer.

mod address;
mod admin;
mod certificate;
mod error;
mod ledger;
mod pubkey;


pub use address::{admin_seeds, certificate_seeds, program_address};
pub use admin::{AdminRegistry, ADMIN_CAPACITY};

pub use certificate::{fits, Certificate, FIELD_32, FIELD_64, URI_MAX};
pub use error::SibError;
pub use ledger::{
    add_admin, add_certificate, init_admin_registry, remove_admin, update_file, AddCertificate,
    InitAdminRegistry, Ledger, Record, SetAdmin, UpdateFile,
};
pub use pubkey::Pubkey;
