use sib::{
    add_admin, add_certificate, fits, init_admin_registry, remove_admin, update_file,
    AddCertificate, AdminRegistry, InitAdminRegistry, Ledger, Pubkey, SetAdmin, SibError,
    UpdateFile, ADMIN_CAPACITY, FIELD_32, FIELD_64, URI_MAX,
};

fn key(n: u8) -> Pubkey {
    let mut bytes = [0u8; 32];
    bytes[0] = n;
    bytes[31] = 7;
    Pubkey::new(bytes)
}

fn program_id() -> Pubkey {
    Pubkey::new([9u8; 32])
}

const SUPER: u8 = 1;
const ADMIN: u8 = 2;
const OTHER: u8 = 3;

fn ledger_with_admin() -> Ledger {
    let mut ledger = Ledger::new(program_id());
    init_admin_registry(&mut ledger, &InitAdminRegistry { payer: key(SUPER) }, key(SUPER)).unwrap();
    add_admin(&mut ledger, &SetAdmin { super_admin: key(SUPER) }, key(ADMIN)).unwrap();
    ledger
}

fn add(ledger: &mut Ledger, operator: u8, nomor: &str, nama: &str, uri: &str) -> Result<(), SibError> {
    add_certificate(
        ledger,
        &AddCertificate { operator: key(operator) },
        "Teknik Informatika".to_string(),
        "Universitas Indonesia".to_string(),
        "B2024".to_string(),
        "1906123456".to_string(),
        nama.to_string(),
        nomor.to_string(),
        "Operator Satu".to_string(),
        uri.to_string(),
        [5u8; 32],
        1_700_000_000,
    )
}

fn address_of(ledger: &Ledger, nomor: &str) -> Pubkey {
    ledger.certificate_address(&nomor.to_string()).unwrap().0
}

#[test]
fn create_then_update_file_pointer() {
    let mut ledger = ledger_with_admin();
    assert_eq!(add(&mut ledger, ADMIN, "2024/IJZ/001", "Budi", "ar://first"), Ok(()));
    let a = address_of(&ledger, "2024/IJZ/001");
    assert!(a.bytes == address_of(&ledger, "2024/IJZ/001").bytes);
    assert!(ledger.contains(&a));

    let ctx = UpdateFile { certificate: a, operator: key(ADMIN) };
    let long_uri = "u".repeat(300);
    assert_eq!(update_file(&mut ledger, &ctx, long_uri, [8u8; 32]), Err(SibError::StringTooLong));
    assert_eq!(ledger.get(&a).unwrap().file_uri, "ar://first");
    assert_eq!(ledger.get(&a).unwrap().file_hash, [5u8; 32]);

    let uri = "h".repeat(200);
    assert_eq!(update_file(&mut ledger, &ctx, uri.clone(), [8u8; 32]), Ok(()));
    let c = ledger.get(&a).unwrap();
    assert_eq!(c.file_uri, uri);
    assert_eq!(c.file_hash, [8u8; 32]);
    assert_eq!(c.nama, "Budi");
    assert_eq!(c.nomor_ijazah, "2024/IJZ/001");
    assert_eq!(c.program_studi, "Teknik Informatika");
    assert_eq!(c.waktu_masuk, 1_700_000_000);
    assert!(c.management.bytes == key(ADMIN).bytes);
}

#[test]
fn stored_fields_match_inputs() {
    let mut ledger = ledger_with_admin();
    assert_eq!(add(&mut ledger, SUPER, "IJZ-7", "Siti Aminah", "https://x/doc.pdf"), Ok(()));
    let (a, bump) = ledger.certificate_address(&"IJZ-7".to_string()).unwrap();
    let c = ledger.get(&a).unwrap();
    assert!(c.management.bytes == key(SUPER).bytes);
    assert!(c.operator_pubkey.bytes == key(SUPER).bytes);
    assert_eq!(c.operator_name, "Operator Satu");
    assert_eq!(c.universitas, "Universitas Indonesia");
    assert_eq!(c.kode_batch, "B2024");
    assert_eq!(c.nim, "1906123456");
    assert_eq!(c.nama, "Siti Aminah");
    assert_eq!(c.nomor_ijazah, "IJZ-7");
    assert_eq!(c.file_uri, "https://x/doc.pdf");
    assert_eq!(c.file_hash, [5u8; 32]);
    assert_eq!(c.bump, bump);
    assert_eq!(ledger.records.len(), 1);
}

#[test]
fn field_over_cap_is_refused() {
    let mut ledger = ledger_with_admin();
    let long_name = "n".repeat(FIELD_64 + 1);
    assert_eq!(add(&mut ledger, ADMIN, "IJZ-8", &long_name, "u"), Err(SibError::StringTooLong));
    assert!(!ledger.contains(&address_of(&ledger, "IJZ-8")));
    assert_eq!(ledger.records.len(), 0);
    let long_uri = "u".repeat(URI_MAX + 1);
    assert_eq!(add(&mut ledger, ADMIN, "IJZ-8", "Budi", &long_uri), Err(SibError::StringTooLong));
    let exact = "n".repeat(FIELD_64);
    assert_eq!(add(&mut ledger, ADMIN, "IJZ-8", &exact, &"u".repeat(URI_MAX)), Ok(()));
}

#[test]
fn caps_count_bytes() {
    assert!(fits(&"a".repeat(FIELD_32), FIELD_32));
    assert!(!fits(&"a".repeat(FIELD_32 + 1), FIELD_32));
    // Each 'é' is two bytes.
    assert!(!fits(&"é".repeat(17), FIELD_32));
    assert!(fits(&"é".repeat(16), FIELD_32));
    assert!(fits(&String::new(), 0));
}

#[test]
fn one_record_per_serial() {
    let mut ledger = ledger_with_admin();
    assert_eq!(add(&mut ledger, ADMIN, "2024/IJZ/002", "A", "u1"), Ok(()));
    assert_eq!(add(&mut ledger, SUPER, "2024/IJZ/002", "B", "u2"), Err(SibError::DuplicateRecord));
    assert_eq!(ledger.records.len(), 1);
    assert_eq!(ledger.get(&address_of(&ledger, "2024/IJZ/002")).unwrap().nama, "A");
    assert_eq!(add(&mut ledger, ADMIN, "2024/IJZ/003", "B", "u2"), Ok(()));
    assert_eq!(ledger.records.len(), 2);
}

#[test]
fn distinct_serials_get_distinct_addresses() {
    let ledger = Ledger::new(program_id());
    let a = address_of(&ledger, "S-1");
    let b = address_of(&ledger, "S-2");
    assert!(a.bytes != b.bytes);
    assert!(a.bytes != program_id().bytes);
}

#[test]
fn address_matches_the_host_derivation() {
    let ledger = Ledger::new(program_id());
    let (a, bump) = ledger.certificate_address(&"2024/IJZ/001".to_string()).unwrap();
    let id = anchor_lang::prelude::Pubkey::new_from_array([9u8; 32]);
    let (expected, expected_bump) =
        anchor_lang::prelude::Pubkey::find_program_address(&[b"cert", b"2024/IJZ/001"], &id);
    assert_eq!(a.bytes, expected.to_bytes());
    assert_eq!(bump, expected_bump);
}

#[test]
fn serial_longer_than_a_seed_has_no_address() {
    let mut ledger = ledger_with_admin();
    let serial = "s".repeat(33);
    assert!(ledger.certificate_address(&serial).is_none());
    assert_eq!(add(&mut ledger, ADMIN, &serial, "A", "u"), Err(SibError::NoViableAddress));
    assert_eq!(ledger.records.len(), 0);
}

#[test]
fn non_admin_cannot_create() {
    let mut ledger = ledger_with_admin();
    assert_eq!(add(&mut ledger, OTHER, "IJZ-9", "A", "u"), Err(SibError::NotAuthorized));
    assert_eq!(ledger.records.len(), 0);
}

#[test]
fn create_needs_registry() {
    let mut ledger = Ledger::new(program_id());
    assert_eq!(add(&mut ledger, SUPER, "IJZ-9", "A", "u"), Err(SibError::NotInitialized));
}

#[test]
fn only_creator_updates() {
    let mut ledger = ledger_with_admin();
    assert_eq!(add(&mut ledger, ADMIN, "IJZ-10", "A", "u"), Ok(()));
    let a = address_of(&ledger, "IJZ-10");
    for who in [SUPER, OTHER] {
        let ctx = UpdateFile { certificate: a, operator: key(who) };
        assert_eq!(update_file(&mut ledger, &ctx, "v".to_string(), [1u8; 32]), Err(SibError::NotAuthorized));
    }
    assert_eq!(ledger.get(&a).unwrap().file_uri, "u");
}

#[test]
fn update_of_missing_record() {
    let mut ledger = ledger_with_admin();
    let ctx = UpdateFile { certificate: key(40), operator: key(ADMIN) };
    assert_eq!(update_file(&mut ledger, &ctx, "v".to_string(), [1u8; 32]), Err(SibError::RecordNotFound));
}

#[test]
fn add_then_remove_admin() {
    let mut ledger = ledger_with_admin();
    let sa = SetAdmin { super_admin: key(SUPER) };
    let reg = ledger.admin_registry.as_ref().unwrap();
    assert!(reg.is_admin(&key(ADMIN)));
    assert!(reg.is_admin(&key(SUPER)));
    assert_eq!(remove_admin(&mut ledger, &sa, key(ADMIN)), Ok(()));
    assert!(!ledger.admin_registry.as_ref().unwrap().is_admin(&key(ADMIN)));
    assert_eq!(remove_admin(&mut ledger, &sa, key(SUPER)), Ok(()));
    assert_eq!(add_admin(&mut ledger, &sa, key(SUPER)), Ok(()));
    assert_eq!(remove_admin(&mut ledger, &sa, key(SUPER)), Ok(()));
    assert!(ledger.admin_registry.as_ref().unwrap().is_admin(&key(SUPER)));
    assert_eq!(ledger.admin_registry.as_ref().unwrap().admins.len(), 0);
    assert_eq!(remove_admin(&mut ledger, &sa, key(OTHER)), Ok(()));
}

#[test]
fn only_super_admin_manages_admins() {
    let mut ledger = ledger_with_admin();
    let ctx = SetAdmin { super_admin: key(ADMIN) };
    assert_eq!(add_admin(&mut ledger, &ctx, key(OTHER)), Err(SibError::NotAuthorized));
    assert_eq!(remove_admin(&mut ledger, &ctx, key(ADMIN)), Err(SibError::NotAuthorized));
    assert!(ledger.admin_registry.as_ref().unwrap().is_admin(&key(ADMIN)));
    assert!(!ledger.admin_registry.as_ref().unwrap().is_admin(&key(OTHER)));
}

#[test]
fn admin_list_capacity() {
    let mut reg = AdminRegistry::new(key(SUPER), 254);
    for n in 0..ADMIN_CAPACITY {
        assert_eq!(reg.add_admin(key(100 + n as u8)), Ok(()));
    }
    assert_eq!(reg.admins.len(), 64);
    assert_eq!(reg.add_admin(key(99)), Err(SibError::AdminListFull));
    assert!(!reg.is_admin(&key(99)));
    assert_eq!(reg.add_admin(key(100)), Ok(()));
    assert_eq!(reg.add_admin(key(SUPER)), Ok(()));
    assert_eq!(reg.admins.len(), 64);
    reg.remove_admin(key(100));
    assert_eq!(reg.admins.len(), 63);
    assert!(reg.admins[0].bytes == key(101).bytes);
    assert_eq!(reg.add_admin(key(99)), Ok(()));
    assert!(reg.admins[63].bytes == key(99).bytes);
}

#[test]
fn re_adding_keeps_the_list() {
    let mut reg = AdminRegistry::new(key(SUPER), 1);
    assert_eq!(reg.add_admin(key(ADMIN)), Ok(()));
    assert_eq!(reg.add_admin(key(ADMIN)), Ok(()));
    assert_eq!(reg.admins.len(), 1);
}

#[test]
fn registry_is_created_once() {
    let mut ledger = Ledger::new(program_id());
    let ctx = InitAdminRegistry { payer: key(OTHER) };
    assert_eq!(init_admin_registry(&mut ledger, &ctx, key(SUPER)), Ok(()));
    assert_eq!(init_admin_registry(&mut ledger, &ctx, key(OTHER)), Err(SibError::DuplicateRecord));
    let reg = ledger.admin_registry.as_ref().unwrap();
    assert!(reg.super_admin.bytes == key(SUPER).bytes);
    let id = anchor_lang::prelude::Pubkey::new_from_array([9u8; 32]);
    let (_, bump) = anchor_lang::prelude::Pubkey::find_program_address(&[b"admin"], &id);
    assert_eq!(reg.bump, bump);
    assert_eq!(add_admin(&mut Ledger::new(program_id()), &SetAdmin { super_admin: key(SUPER) }, key(2)), Err(SibError::NotInitialized));
}

#[test]
fn key_equality() {
    assert!(key(4).same(&key(4)));
    assert!(!key(4).same(&key(5)));
}
