use vstd::prelude::*;
use vstd::string::StrSliceExecFns;
use vstd::utf8::encode_utf8;

use crate::pubkey::Pubkey;

verus! {

/// The program-derived address and bump seed found for `seeds` under
/// `program_id`, or none when no bump seed gives an address off the curve.
pub uninterp spec fn program_address(seeds: Seq<Seq<u8>>, program_id: Seq<u8>) -> Option<
    (Seq<u8>, u8),
>;

/// Longest seed, in bytes, that address derivation accepts.
pub const MAX_SEED_LEN: usize = 32;

pub open spec fn seed_views(seeds: Seq<Vec<u8>>) -> Seq<Seq<u8>> {
    seeds.map_values(|s: Vec<u8>| s@)
}

pub open spec fn spec_pair(r: Option<(Pubkey, u8)>) -> Option<(Seq<u8>, u8)> {
    match r {
        Some(p) => Some((p.0@, p.1)),
        None => None,
    }
}

/// Relies on anchor_lang's `Pubkey::try_find_program_address`: a
/// deterministic search from bump 255 down for an off-curve address; it finds
/// none when a seed is longer than 32 bytes.
#[verifier::external_body]
pub(crate) fn find_program_address(seeds: &Vec<Vec<u8>>, program_id: &Pubkey) -> (r: Option<
    (Pubkey, u8),
>)
    ensures
        spec_pair(r) == program_address(seed_views(seeds@), program_id@),
        (exists|i: int| 0 <= i < seeds@.len() && seeds@[i]@.len() > MAX_SEED_LEN) ==> r is None,
{
    let s: Vec<&[u8]> = seeds.iter().map(|v| v.as_slice()).collect();
    let id = anchor_lang::prelude::Pubkey::new_from_array(program_id.bytes);
    anchor_lang::prelude::Pubkey::try_find_program_address(&s, &id).map(
        |(a, b)| (Pubkey { bytes: a.to_bytes() }, b),
    )
}

/// The ASCII bytes of "admin".
pub open spec fn admin_tag() -> Seq<u8> {
    seq![97u8, 100u8, 109u8, 105u8, 110u8]
}

/// The ASCII bytes of "cert".
pub open spec fn cert_tag() -> Seq<u8> {
    seq![99u8, 101u8, 114u8, 116u8]
}

pub open spec fn spec_admin_seeds() -> Seq<Seq<u8>> {
    seq![admin_tag()]
}

pub open spec fn spec_certificate_seeds(nomor_ijazah: Seq<char>) -> Seq<Seq<u8>> {
    seq![cert_tag(), encode_utf8(nomor_ijazah)]
}

/// Seeds of the admin registry's address.
pub fn admin_seeds() -> (r: Vec<Vec<u8>>)
    ensures
        seed_views(r@) == spec_admin_seeds(),
{
    let tag: Vec<u8> = vec![97u8, 100u8, 109u8, 105u8, 110u8];
    assert(tag@ =~= admin_tag());
    let mut r: Vec<Vec<u8>> = Vec::new();
    r.push(tag);
    assert(seed_views(r@) =~= spec_admin_seeds());
    r
}

/// Seeds of a certificate's address: the tag and the serial's bytes.
pub fn certificate_seeds(nomor_ijazah: &String) -> (r: Vec<Vec<u8>>)
    ensures
        seed_views(r@) == spec_certificate_seeds(nomor_ijazah@),
{
    let tag: Vec<u8> = vec![99u8, 101u8, 114u8, 116u8];
    assert(tag@ =~= cert_tag());
    let key = nomor_ijazah.as_str().as_bytes_vec();
    let mut r: Vec<Vec<u8>> = Vec::new();
    r.push(tag);
    r.push(key);
    assert(seed_views(r@) =~= spec_certificate_seeds(nomor_ijazah@));
    r
}

} // verus!
