use vstd::prelude::*;

use crate::address::{
    admin_seeds, certificate_seeds, find_program_address, program_address, spec_admin_seeds, spec_pair,
    spec_certificate_seeds,
};
use crate::admin::{without, AdminRegistry};
use crate::certificate::{byte_len, fields_fit, fits, Certificate, FIELD_32, FIELD_64, URI_MAX};
use crate::error::SibError;
use crate::pubkey::Pubkey;

verus! {

/// A certificate stored at its derived address.
pub struct Record {
    pub address: Pubkey,
    pub certificate: Certificate,
}

/// The program's persistent state: the admin registry, once created, and the
/// certificate records, at most one per address.
pub struct Ledger {
    pub program_id: Pubkey,
    pub admin_registry: Option<AdminRegistry>,
    pub records: Vec<Record>,
}

/// Signers of `init_admin_registry`.
pub struct InitAdminRegistry {
    pub payer: Pubkey,
}

/// Signers of `add_admin` and `remove_admin`.
pub struct SetAdmin {
    pub super_admin: Pubkey,
}

/// Signers of `add_certificate`.
pub struct AddCertificate {
    pub operator: Pubkey,
}

/// Signer and target record of `update_file`.
pub struct UpdateFile {
    pub certificate: Pubkey,
    pub operator: Pubkey,
}

impl Ledger {
    pub open spec fn addresses(&self) -> Seq<Seq<u8>> {
        self.records@.map_values(|r: Record| r.address@)
    }

    pub open spec fn has_record(&self, address: Seq<u8>) -> bool {
        self.addresses().contains(address)
    }

    /// Position of the record at `address`, when there is one.
    pub open spec fn index_of(&self, address: Seq<u8>) -> int {
        choose|i: int| 0 <= i < self.records@.len() && self.records@[i].address@ == address
    }

    pub open spec fn record_at(&self, address: Seq<u8>) -> Certificate {
        self.records@[self.index_of(address)].certificate
    }

    /// The address and bump that a certificate with serial `nomor_ijazah` gets.
    pub open spec fn certificate_slot(&self, nomor_ijazah: Seq<char>) -> Option<(Seq<u8>, u8)> {
        program_address(spec_certificate_seeds(nomor_ijazah), self.program_id@)
    }

    /// Registry well formed, if present; one record per address; every
    /// record's fields within caps.
    pub open spec fn wf(&self) -> bool {
        &&& (self.admin_registry matches Some(reg) ==> reg.wf())
        &&& self.addresses().no_duplicates()
        &&& forall|i: int| 0 <= i < self.records@.len() ==> #[trigger] self.records@[i].certificate.wf()
    }

    /// A ledger with no registry and no records.
    pub fn new(program_id: Pubkey) -> (r: Ledger)
        ensures
            r.wf(),
            r.program_id == program_id,
            r.admin_registry is None,
            r.records@.len() == 0,
    {
        let r = Ledger { program_id, admin_registry: None, records: Vec::new() };
        assert(r.addresses() =~= Seq::<Seq<u8>>::empty());
        r
    }

    /// Position of the record at `address`.
    fn find(&self, address: &Pubkey) -> (r: Option<usize>)
        requires
            self.wf(),
        ensures
            r is None <==> !self.has_record(address@),
            r matches Some(i) ==> i < self.records@.len() && i == self.index_of(address@),
    {
        let mut i: usize = 0;
        while i < self.records.len()
            invariant
                0 <= i <= self.records@.len(),
                self.wf(),
                forall|j: int| 0 <= j < i ==> self.addresses()[j] != address@,
            decreases self.records@.len() - i,
        {
            if self.records[i].address.same(address) {
                assert(self.addresses()[i as int] == address@);
                assert(self.records@[i as int].address@ == address@);
                let ghost k = self.index_of(address@);
                assert(self.addresses()[k] == self.addresses()[i as int]);
                assert(k == i);
                return Some(i);
            }
            i = i + 1;
        }
        None
    }

    /// The address and bump of the certificate with serial `nomor_ijazah`.
    pub fn certificate_address(&self, nomor_ijazah: &String) -> (r: Option<(Pubkey, u8)>)
        ensures
            spec_pair(r) == self.certificate_slot(nomor_ijazah@),
    {
        let seeds = certificate_seeds(nomor_ijazah);
        find_program_address(&seeds, &self.program_id)
    }

    /// The record at `address`, if any.
    pub fn get(&self, address: &Pubkey) -> (r: Option<&Certificate>)
        requires
            self.wf(),
        ensures
            r is None <==> !self.has_record(address@),
            r matches Some(c) ==> *c == self.record_at(address@),
    {
        match self.find(address) {
            None => None,
            Some(i) => Some(&self.records[i].certificate),
        }
    }

    /// Whether a record occupies `address`.
    pub fn contains(&self, address: &Pubkey) -> (r: bool)
        requires
            self.wf(),
        ensures
            r == self.has_record(address@),
    {
        self.find(address).is_some()
    }
}

/// What `add_certificate` returns, from the checks in the order they are made.
pub open spec fn certificate_result(
    ledger: &Ledger,
    operator: Seq<u8>,
    fields_ok: bool,
    nomor_ijazah: Seq<char>,
) -> Result<(), SibError> {
    match ledger.admin_registry {
        None => Err(SibError::NotInitialized),
        Some(reg) => if !reg.spec_is_admin(operator) {
            Err(SibError::NotAuthorized)
        } else if !fields_ok {
            Err(SibError::StringTooLong)
        } else {
            match ledger.certificate_slot(nomor_ijazah) {
                None => Err(SibError::NoViableAddress),
                Some(slot) => if ledger.has_record(slot.0) {
                    Err(SibError::DuplicateRecord)
                } else {
                    Ok(())
                },
            }
        },
    }
}

/// What `update_file` returns, from the checks in the order they are made.
pub open spec fn update_result(
    ledger: &Ledger,
    address: Seq<u8>,
    operator: Seq<u8>,
    uri_ok: bool,
) -> Result<(), SibError> {
    if !uri_ok {
        Err(SibError::StringTooLong)
    } else if !ledger.has_record(address) {
        Err(SibError::RecordNotFound)
    } else if ledger.record_at(address).management@ != operator {
        Err(SibError::NotAuthorized)
    } else {
        Ok(())
    }
}

/// The record that `add_certificate` stores.
pub open spec fn issued(
    operator: Pubkey,
    program_studi: String,
    universitas: String,
    kode_batch: String,
    nim: String,
    nama: String,
    nomor_ijazah: String,
    operator_name: String,
    file_uri: String,
    file_hash: [u8; 32],
    waktu_masuk: i64,
    bump: u8,
) -> Certificate {
    Certificate {
        management: operator,
        operator_pubkey: operator,
        operator_name,
        program_studi,
        universitas,
        kode_batch,
        waktu_masuk,
        nim,
        nama,
        nomor_ijazah,
        file_uri,
        file_hash,
        bump,
    }
}

/// `c` with a new file pointer and every other field kept.
pub open spec fn with_file(c: Certificate, file_uri: String, file_hash: [u8; 32]) -> Certificate {
    Certificate { file_uri, file_hash, ..c }
}

/// Creates the admin registry with `super_admin` and no delegated admins.
pub fn init_admin_registry(
    ledger: &mut Ledger,
    ctx: &InitAdminRegistry,
    super_admin: Pubkey,
) -> (r: Result<(), SibError>)
    requires
        old(ledger).wf(),
    ensures
        final(ledger).wf(),
        old(ledger).admin_registry is Some ==> r == Err::<(), SibError>(SibError::DuplicateRecord),
        old(ledger).admin_registry is None && program_address(
            spec_admin_seeds(),
            old(ledger).program_id@,
        ) is None ==> r == Err::<(), SibError>(SibError::NoViableAddress),
        old(ledger).admin_registry is None && program_address(
            spec_admin_seeds(),
            old(ledger).program_id@,
        ) is Some ==> r is Ok,
        r is Err ==> *final(ledger) == *old(ledger),
        r is Ok ==> {
            &&& final(ledger).program_id == old(ledger).program_id
            &&& final(ledger).records == old(ledger).records
            &&& final(ledger).admin_registry is Some
            &&& final(ledger).admin_registry.unwrap().super_admin == super_admin
            &&& final(ledger).admin_registry.unwrap().admins@.len() == 0
            &&& final(ledger).admin_registry.unwrap().bump == program_address(
                spec_admin_seeds(),
                old(ledger).program_id@,
            ).unwrap().1
        },
{
    if ledger.admin_registry.is_some() {
        return Err(SibError::DuplicateRecord);
    }
    let seeds = admin_seeds();
    match find_program_address(&seeds, &ledger.program_id) {
        None => Err(SibError::NoViableAddress),
        Some((_, bump)) => {
            ledger.admin_registry = Some(AdminRegistry::new(super_admin, bump));
            Ok(())
        },
    }
}

/// Creates the record for serial `nomor_ijazah` at its derived address.
/// The signer must be an admin and every text field within its cap; the
/// signer becomes the record's owner, and `waktu_masuk` is the time of issue.
pub fn add_certificate(
    ledger: &mut Ledger,
    ctx: &AddCertificate,
    program_studi: String,
    universitas: String,
    kode_batch: String,
    nim: String,
    nama: String,
    nomor_ijazah: String,
    operator_name: String,
    file_uri: String,
    file_hash: [u8; 32],
    waktu_masuk: i64,
) -> (r: Result<(), SibError>)
    requires
        old(ledger).wf(),
    ensures
        final(ledger).wf(),
        r == certificate_result(
            old(ledger),
            ctx.operator@,
            fields_fit(
                program_studi@,
                universitas@,
                kode_batch@,
                nim@,
                nama@,
                nomor_ijazah@,
                operator_name@,
                file_uri@,
            ),
            nomor_ijazah@,
        ),
        r is Err ==> *final(ledger) == *old(ledger),
        r is Ok ==> {
            let slot = old(ledger).certificate_slot(nomor_ijazah@).unwrap();
            &&& final(ledger).program_id == old(ledger).program_id
            &&& final(ledger).admin_registry == old(ledger).admin_registry
            &&& final(ledger).records@.len() == old(ledger).records@.len() + 1
            &&& final(ledger).records@.drop_last() == old(ledger).records@
            &&& final(ledger).records@.last().address@ == slot.0
            &&& final(ledger).records@.last().certificate == issued(
                ctx.operator,
                program_studi,
                universitas,
                kode_batch,
                nim,
                nama,
                nomor_ijazah,
                operator_name,
                file_uri,
                file_hash,
                waktu_masuk,
                slot.1,
            )
        },
{
    let authorized = match &ledger.admin_registry {
        None => return Err(SibError::NotInitialized),
        Some(reg) => reg.is_admin(&ctx.operator),
    };
    if !authorized {
        return Err(SibError::NotAuthorized);
    }
    if !(fits(&program_studi, FIELD_64) && fits(&universitas, FIELD_64) && fits(
        &kode_batch,
        FIELD_32,
    ) && fits(&nim, FIELD_32) && fits(&nama, FIELD_64) && fits(&nomor_ijazah, FIELD_64) && fits(
        &operator_name,
        FIELD_64,
    ) && fits(&file_uri, URI_MAX)) {
        return Err(SibError::StringTooLong);
    }
    let seeds = certificate_seeds(&nomor_ijazah);
    let (address, bump) = match find_program_address(&seeds, &ledger.program_id) {
        None => return Err(SibError::NoViableAddress),
        Some(found) => found,
    };
    if ledger.contains(&address) {
        return Err(SibError::DuplicateRecord);
    }
    let certificate = Certificate {
        management: ctx.operator,
        operator_pubkey: ctx.operator,
        operator_name,
        program_studi,
        universitas,
        kode_batch,
        waktu_masuk,
        nim,
        nama,
        nomor_ijazah,
        file_uri,
        file_hash,
        bump,
    };
    let ghost before = ledger.records@;
    ledger.records.push(Record { address, certificate });
    assert(ledger.records@.drop_last() =~= before);
    assert(ledger.addresses() =~= old(ledger).addresses().push(address@));
    assert forall|i: int, j: int|
        0 <= i < ledger.addresses().len() && 0 <= j < ledger.addresses().len() && i != j implies ledger.addresses()[i]
        != ledger.addresses()[j] by {
        let a = old(ledger).addresses();
        if i < a.len() && j < a.len() {
        } else if i < a.len() {
            assert(a.contains(a[i]));
        } else {
            assert(a.contains(a[j]));
        }
    }
    assert forall|i: int| 0 <= i < ledger.records@.len() implies #[trigger] ledger.records@[i].certificate.wf() by {
        if i < before.len() {
            assert(ledger.records@[i] == before[i]);
        }
    }
    Ok(())
}

/// Replaces the file pointer of the record at `ctx.certificate`. The URI
/// must be within its cap and the signer must be the record's owner; admin
/// rank gives no right here.
pub fn update_file(ledger: &mut Ledger, ctx: &UpdateFile, new_uri: String, new_hash: [u8; 32]) -> (r:
    Result<(), SibError>)
    requires
        old(ledger).wf(),
    ensures
        final(ledger).wf(),
        r == update_result(
            old(ledger),
            ctx.certificate@,
            ctx.operator@,
            byte_len(new_uri@) <= URI_MAX,
        ),
        r is Err ==> *final(ledger) == *old(ledger),
        r is Ok ==> {
            let i = old(ledger).index_of(ctx.certificate@);
            &&& final(ledger).program_id == old(ledger).program_id
            &&& final(ledger).admin_registry == old(ledger).admin_registry
            &&& final(ledger).records@.len() == old(ledger).records@.len()
            &&& forall|j: int|
                0 <= j < old(ledger).records@.len() && j != i ==> final(ledger).records@[j]
                    == old(ledger).records@[j]
            &&& final(ledger).records@[i].address == old(ledger).records@[i].address
            &&& final(ledger).records@[i].certificate == with_file(
                old(ledger).records@[i].certificate,
                new_uri,
                new_hash,
            )
        },
{
    if !fits(&new_uri, URI_MAX) {
        return Err(SibError::StringTooLong);
    }
    let i = match ledger.find(&ctx.certificate) {
        None => return Err(SibError::RecordNotFound),
        Some(i) => i,
    };
    if !ledger.records[i].certificate.management.same(&ctx.operator) {
        return Err(SibError::NotAuthorized);
    }
    let ghost before = ledger.records@;
    let mut rec = ledger.records.remove(i);
    rec.certificate.file_uri = new_uri;
    rec.certificate.file_hash = new_hash;
    ledger.records.insert(i, rec);
    assert(ledger.records@ =~= before.update(i as int, rec));
    assert(ledger.addresses() =~= old(ledger).addresses());
    assert forall|j: int| 0 <= j < ledger.records@.len() implies #[trigger] ledger.records@[j].certificate.wf() by {
        if j != i {
            assert(ledger.records@[j] == before[j]);
        } else {
            assert(before[j].certificate.wf());
        }
    }
    Ok(())
}

/// Adds a delegated admin; only the super-admin may.
pub fn add_admin(ledger: &mut Ledger, ctx: &SetAdmin, new_admin: Pubkey) -> (r: Result<
    (),
    SibError,
>)
    requires
        old(ledger).wf(),
    ensures
        final(ledger).wf(),
        final(ledger).program_id == old(ledger).program_id,
        final(ledger).records == old(ledger).records,
        r is Err ==> *final(ledger) == *old(ledger),
        old(ledger).admin_registry is None ==> r == Err::<(), SibError>(SibError::NotInitialized),
        old(ledger).admin_registry matches Some(reg) ==> {
            if ctx.super_admin@ != reg.super_admin@ {
                r == Err::<(), SibError>(SibError::NotAuthorized)
            } else {
                &&& r == reg.add_result(new_admin@)
                &&& final(ledger).admin_registry is Some
                &&& final(ledger).admin_registry.unwrap().super_admin == reg.super_admin
                &&& final(ledger).admin_registry.unwrap().bump == reg.bump
                &&& final(ledger).admin_registry.unwrap().keys() == reg.keys_after_add(new_admin@)
            }
        },
{
    let mut reg = match ledger.admin_registry.take() {
        None => return Err(SibError::NotInitialized),
        Some(reg) => reg,
    };
    if !ctx.super_admin.same(&reg.super_admin) {
        ledger.admin_registry = Some(reg);
        return Err(SibError::NotAuthorized);
    }
    let r = reg.add_admin(new_admin);
    ledger.admin_registry = Some(reg);
    r
}

/// Removes a delegated admin; only the super-admin may.
pub fn remove_admin(ledger: &mut Ledger, ctx: &SetAdmin, old_admin: Pubkey) -> (r: Result<
    (),
    SibError,
>)
    requires
        old(ledger).wf(),
    ensures
        final(ledger).wf(),
        final(ledger).program_id == old(ledger).program_id,
        final(ledger).records == old(ledger).records,
        r is Err ==> *final(ledger) == *old(ledger),
        old(ledger).admin_registry is None ==> r == Err::<(), SibError>(SibError::NotInitialized),
        old(ledger).admin_registry matches Some(reg) ==> {
            if ctx.super_admin@ != reg.super_admin@ {
                r == Err::<(), SibError>(SibError::NotAuthorized)
            } else {
                &&& r is Ok
                &&& final(ledger).admin_registry is Some
                &&& final(ledger).admin_registry.unwrap().super_admin == reg.super_admin
                &&& final(ledger).admin_registry.unwrap().bump == reg.bump
                &&& final(ledger).admin_registry.unwrap().keys() == without(reg.keys(), old_admin@)
            }
        },
{
    let mut reg = match ledger.admin_registry.take() {
        None => return Err(SibError::NotInitialized),
        Some(reg) => reg,
    };
    if !ctx.super_admin.same(&reg.super_admin) {
        ledger.admin_registry = Some(reg);
        return Err(SibError::NotAuthorized);
    }
    reg.remove_admin(old_admin);
    ledger.admin_registry = Some(reg);
    Ok(())
}

/// With an admin signing and every field within its cap, creation succeeds
/// exactly when the serial's address can be derived and is still free.
pub proof fn lemma_within_caps_succeeds(ledger: Ledger, operator: Seq<u8>, nomor_ijazah: Seq<char>)
    requires
        ledger.admin_registry matches Some(reg) && reg.spec_is_admin(operator),
    ensures
        (certificate_result(&ledger, operator, true, nomor_ijazah) is Ok) == (ledger.certificate_slot(
            nomor_ijazah,
        ) matches Some(slot) && !ledger.has_record(slot.0)),
{
}

/// A field over its cap is refused with `StringTooLong` whenever the signer
/// is an admin; a refused call leaves the ledger as it was.
pub proof fn lemma_over_cap_refused(ledger: Ledger, operator: Seq<u8>, nomor_ijazah: Seq<char>)
    requires
        ledger.admin_registry matches Some(reg) && reg.spec_is_admin(operator),
    ensures
        certificate_result(&ledger, operator, false, nomor_ijazah) == Err::<(), SibError>(
            SibError::StringTooLong,
        ),
{
}

/// Once a record has been created for a serial, no later creation for the
/// same serial succeeds; one that passes the admin and cap checks fails with
/// `DuplicateRecord`.
pub proof fn lemma_one_record_per_serial(
    before: Ledger,
    after: Ledger,
    first_operator: Seq<u8>,
    second_operator: Seq<u8>,
    second_fields_ok: bool,
    nomor_ijazah: Seq<char>,
)
    requires
        certificate_result(&before, first_operator, true, nomor_ijazah) is Ok,
        after.program_id == before.program_id,
        after.admin_registry == before.admin_registry,
        after.records@.len() > 0,
        after.records@.last().address@ == before.certificate_slot(nomor_ijazah).unwrap().0,
    ensures
        certificate_result(&after, second_operator, second_fields_ok, nomor_ijazah) is Err,
        (after.admin_registry matches Some(reg) && reg.spec_is_admin(second_operator))
            && second_fields_ok ==> certificate_result(
            &after,
            second_operator,
            second_fields_ok,
            nomor_ijazah,
        ) == Err::<(), SibError>(SibError::DuplicateRecord),
{
    let last = after.records@.len() - 1;
    assert(after.addresses()[last] == after.records@.last().address@);
    assert(after.has_record(before.certificate_slot(nomor_ijazah).unwrap().0));
}

/// Only the record's owner may replace its file pointer: any other signer,
/// whatever its admin rank, is refused with `NotAuthorized`.
pub proof fn lemma_only_owner_updates(ledger: Ledger, address: Seq<u8>, operator: Seq<u8>)
    requires
        ledger.has_record(address),
        ledger.record_at(address).management@ != operator,
    ensures
        update_result(&ledger, address, operator, true) == Err::<(), SibError>(
            SibError::NotAuthorized,
        ),
{
}

} // verus!
