use vstd::prelude::*;
use vstd::utf8::encode_utf8;

use crate::pubkey::Pubkey;

verus! {

/// Cap, in bytes, of a short identifier field.
pub const FIELD_32: usize = 32;

/// Cap, in bytes, of a long text field.
pub const FIELD_64: usize = 64;

/// Cap, in bytes, of the file URI.
pub const URI_MAX: usize = 256;

/// Length of a text value in bytes, as stored.
pub open spec fn byte_len(s: Seq<char>) -> nat {
    encode_utf8(s).len()
}

/// Whether `value` is at most `cap` bytes long.
pub fn fits(value: &String, cap: usize) -> (r: bool)
    ensures
        r == (byte_len(value@) <= cap),
{
    value.as_str().as_bytes().len() <= cap
}

/// Whether every text field of a new record is within its cap.
pub open spec fn fields_fit(
    program_studi: Seq<char>,
    universitas: Seq<char>,
    kode_batch: Seq<char>,
    nim: Seq<char>,
    nama: Seq<char>,
    nomor_ijazah: Seq<char>,
    operator_name: Seq<char>,
    file_uri: Seq<char>,
) -> bool {
    &&& byte_len(program_studi) <= FIELD_64
    &&& byte_len(universitas) <= FIELD_64
    &&& byte_len(kode_batch) <= FIELD_32
    &&& byte_len(nim) <= FIELD_32
    &&& byte_len(nama) <= FIELD_64
    &&& byte_len(nomor_ijazah) <= FIELD_64
    &&& byte_len(operator_name) <= FIELD_64
    &&& byte_len(file_uri) <= URI_MAX
}

/// One issued certificate. `management` is the identity that created it and
/// the only one that may change its file pointer.
pub struct Certificate {
    pub management: Pubkey,
    pub operator_pubkey: Pubkey,
    pub operator_name: String,
    pub program_studi: String,
    pub universitas: String,
    pub kode_batch: String,
    pub waktu_masuk: i64,
    pub nim: String,
    pub nama: String,
    pub nomor_ijazah: String,
    pub file_uri: String,
    pub file_hash: [u8; 32],
    pub bump: u8,
}

impl Certificate {
    /// Every text field within its cap.
    pub open spec fn wf(&self) -> bool {
        fields_fit(
            self.program_studi@,
            self.universitas@,
            self.kode_batch@,
            self.nim@,
            self.nama@,
            self.nomor_ijazah@,
            self.operator_name@,
            self.file_uri@,
        )
    }

    /// Whether every text field is within its cap.
    pub fn is_valid(&self) -> (r: bool)
        ensures
            r == self.wf(),
    {
        fits(&self.program_studi, FIELD_64) && fits(&self.universitas, FIELD_64) && fits(
            &self.kode_batch,
            FIELD_32,
        ) && fits(&self.nim, FIELD_32) && fits(&self.nama, FIELD_64) && fits(
            &self.nomor_ijazah,
            FIELD_64,
        ) && fits(&self.operator_name, FIELD_64) && fits(&self.file_uri, URI_MAX)
    }
}

} // verus!
