//! Small helpers on bytes and bits, protocol constants, and customer records.
use crate::field::{add_mod, FieldParams};
use vstd::prelude::*;

verus! {

/// Computation security parameter
pub const LAMBDA: usize = 128;

/// Statistical security parameter
pub const LAMBDA_S: usize = 80;

/// Computation security parameter in bytes
pub const LAMBDA_BYTES: usize = 16;

/// B parameter
pub const B_PARAMETER: usize = 47;

/// Masking parameter
pub const MASK: usize = 128;

/// Masking parameter in bytes
pub const MASK_BYTES: usize = 16;

/// Size of a compressed Ristretto point.
pub const POINT_BYTES_SIZE: usize = 32;

/// LABEL for H1 random oracle function
pub const H1_RO_LABEL: &'static str = "SL-PSC-H1-function";

/// LABEL for H2 random oracle function
pub const H2_RO_LABEL: &'static str = "SL-PSC-H2-function";

/// LABEL for DLog proof
pub const DLOG_LABEL: &'static str = "SL-PSC-DLog-proof";

/// LABEL for CFM protocol
pub const CFM_LABEL: &'static str = "SL-CFM-protocol";

/// Byte-wise exclusive or of two arrays.
pub fn xor_array<const N: usize>(a: [u8; N], b: [u8; N]) -> (r: [u8; N])
    ensures
        r@.len() == N,
        forall|i: int| 0 <= i < N ==> #[trigger] r@[i] == a@[i] ^ b@[i],
{
    let mut r = a;
    let mut i: usize = 0;
    while i < N
        invariant
            0 <= i <= N,
            r@.len() == N,
            a@.len() == N,
            b@.len() == N,
            forall|k: int| 0 <= k < i ==> #[trigger] r@[k] == a@[k] ^ b@[k],
        decreases N - i,
    {
        r[i] = a[i] ^ b[i];
        i += 1;
    }
    r
}

/// Outputs 0x00 if `bit == 0` and 0xFF if `bit == 1`, without branching on
/// the bit.
pub fn bit_to_bit_mask(bit: u8) -> (r: u8)
    requires
        bit <= 1,
    ensures
        bit == 0 ==> r == 0,
        bit == 1 ==> r == 0xff,
{
    let r = 0u8.wrapping_sub(bit);
    assert(bit == 0 ==> r == 0);
    assert(bit == 1 ==> r == 0xff);
    r
}

/// The bit at little-endian position `idx` of a byte string: bit
/// `idx % 8` of byte `idx / 8`.
pub open spec fn bit_at(bytes: Seq<u8>, idx: int) -> bool {
    (bytes[idx / 8] >> ((idx % 8) as u8)) & 1u8 == 1u8
}

/// Simple trait to extract a bit from a byte array.
pub trait ExtractBit {
    /// The bytes that the bits are read from.
    spec fn byte_view(&self) -> Seq<u8>;

    /// Extract a bit at given index (in little endian order) from a byte array.
    fn extract_bit(&self, idx: usize) -> (r: bool)
        requires
            idx / 8 < self.byte_view().len(),
        ensures
            r == bit_at(self.byte_view(), idx as int),
    ;
}

/// The bit at little-endian position `idx` of `bytes`.
fn extract_bit_of(bytes: &[u8], idx: usize) -> (r: bool)
    requires
        idx / 8 < bytes@.len(),
    ensures
        r == bit_at(bytes@, idx as int),
{
    let byte_idx = idx >> 3;
    let bit_idx = (idx & 0x7) as u8;
    assert(byte_idx == idx / 8 && bit_idx == idx % 8) by (bit_vector)
        requires byte_idx == idx >> 3, bit_idx == (idx & 0x7) as u8;
    let byte = bytes[byte_idx];
    let mask: u8 = 1u8 << bit_idx;
    let r = (byte & mask) != 0;
    assert(((byte & (1u8 << bit_idx)) != 0) == ((byte >> bit_idx) & 1u8 == 1u8)) by (bit_vector)
        requires bit_idx < 8;
    r
}

impl ExtractBit for Vec<u8> {
    open spec fn byte_view(&self) -> Seq<u8> {
        self@
    }

    fn extract_bit(&self, idx: usize) -> (r: bool) {
        extract_bit_of(self.as_slice(), idx)
    }
}

impl<const T: usize> ExtractBit for [u8; T] {
    open spec fn byte_view(&self) -> Seq<u8> {
        self@
    }

    fn extract_bit(&self, idx: usize) -> (r: bool) {
        extract_bit_of(self.as_slice(), idx)
    }
}

/// The number that big-endian bytes denote.
pub open spec fn be_value(s: Seq<u8>) -> int
    decreases s.len(),
{
    if s.len() == 0 {
        0
    } else {
        be_value(s.drop_last()) * 256 + s.last()
    }
}

proof fn lemma_be_value_bound(s: Seq<u8>, n: nat)
    requires
        s.len() == n,
        n <= 16,
    ensures
        0 <= be_value(s) < vstd::arithmetic::power::pow(256, n),
    decreases n,
{
    reveal(vstd::arithmetic::power::pow);
    if n > 0 {
        lemma_be_value_bound(s.drop_last(), (n - 1) as nat);
        let q = vstd::arithmetic::power::pow(256, (n - 1) as nat);
        assert(be_value(s.drop_last()) * 256 + s.last() < q * 256) by (nonlinear_arith)
            requires be_value(s.drop_last()) < q, s.last() < 256;
        assert(vstd::arithmetic::power::pow(256, n) == 256 * q);
    }
}

/// The big-endian number that 16 bytes denote, reduced into the field.
pub fn scalar_from_bytes(params: FieldParams, bytes: [u8; 16]) -> (r: u128)
    requires
        params.wf(),
    ensures
        r as int == be_value(bytes@) % (params.p as int),
{
    add_mod(u128_from_be_bytes(bytes), 0, params)
}

/// The big-endian number that 16 bytes denote.
pub fn u128_from_be_bytes(bytes: [u8; 16]) -> (r: u128)
    ensures
        r as int == be_value(bytes@),
{
    let mut v: u128 = 0;
    let mut i: usize = 0;
    while i < 16
        invariant
            0 <= i <= 16,
            bytes@.len() == 16,
            v as int == be_value(bytes@.subrange(0, i as int)),
        decreases 16 - i,
    {
        let ghost pre = bytes@.subrange(0, i as int);
        let ghost next = bytes@.subrange(0, i + 1);
        assert(next.drop_last() =~= pre);
        proof {
            lemma_be_value_bound(pre, i as nat);
            vstd::arithmetic::power::lemma_pow_increases(256, i as nat, 15);
            reveal_with_fuel(vstd::arithmetic::power::pow, 16);
            assert(vstd::arithmetic::power::pow(256, 15) == 0x1000000000000000000000000000000);
        }
        v = v * 256 + bytes[i] as u128;
        i += 1;
    }
    assert(bytes@.subrange(0, 16) =~= bytes@);
    v
}

/// The 16 big-endian bytes of `v`.
pub fn u128_to_be_bytes(v: u128) -> (r: [u8; 16])
    ensures
        forall|i: int| 0 <= i < 16 ==> #[trigger] r@[i] == ((v >> (8 * (15 - i)) as u128) & 0xff) as u8,
{
    let mut r = [0u8; 16];
    let mut i: usize = 0;
    while i < 16
        invariant
            0 <= i <= 16,
            r@.len() == 16,
            forall|k: int| 0 <= k < i ==> #[trigger] r@[k] == ((v >> (8 * (15 - k)) as u128) & 0xff) as u8,
        decreases 16 - i,
    {
        r[i] = ((v >> ((8 * (15 - i)) as u128)) & 0xff) as u8;
        i += 1;
    }
    r
}

/// A customer record as held by either bank.
#[derive(Clone, Debug)]
pub struct Customer {
    name: String,
    passport_number: String,
    address: String,
}

impl Customer {
    /// The record with the given fields.
    pub fn new(name: &str, passport_number: &str, address: &str) -> (r: Self)
        ensures
            r.name_spec() == name@,
            r.passport_number_spec() == passport_number@,
            r.address_spec() == address@,
    {
        proof {
            broadcast use vstd::string::to_string_from_display_ensures_for_str;
        }
        Customer {
            name: name.to_string(),
            passport_number: passport_number.to_string(),
            address: address.to_string(),
        }
    }

    /// The customer's name.
    pub closed spec fn name_spec(&self) -> Seq<char> {
        self.name@
    }

    /// The customer's passport number.
    pub closed spec fn passport_number_spec(&self) -> Seq<char> {
        self.passport_number@
    }

    /// The customer's address.
    pub closed spec fn address_spec(&self) -> Seq<char> {
        self.address@
    }

    /// Every field is short enough for a transcript message.
    pub open spec fn fits_transcript(&self) -> bool {
        &&& vstd::utf8::encode_utf8(self.name_spec()).len() <= u32::MAX
        &&& vstd::utf8::encode_utf8(self.passport_number_spec()).len() <= u32::MAX
        &&& vstd::utf8::encode_utf8(self.address_spec()).len() <= u32::MAX
    }

    /// The 32-byte identity of the record that the banks compare: a
    /// transcript over the name, passport number and address.
    pub fn to_hash_bytes(&self) -> (r: [u8; 32])
        requires
            self.fits_transcript(),
    {
        let mut t = crate::transcript::transcript_new("Customer hash bytes");
        crate::transcript::transcript_append(&mut t, "name", self.name.as_str().as_bytes());
        crate::transcript::transcript_append(&mut t, "passport_number", self.passport_number.as_str().as_bytes());
        crate::transcript::transcript_append(&mut t, "address", self.address.as_str().as_bytes());
        crate::transcript::transcript_challenge(&mut t, "challenge-bytes")
    }

    /// The customer's name.
    pub fn name(&self) -> (r: &str)
        ensures
            r@ == self.name_spec(),
    {
        self.name.as_str()
    }

    /// The customer's passport number.
    pub fn passport_number(&self) -> (r: &str)
        ensures
            r@ == self.passport_number_spec(),
    {
        self.passport_number.as_str()
    }

    /// The customer's address.
    pub fn address(&self) -> (r: &str)
        ensures
            r@ == self.address_spec(),
    {
        self.address.as_str()
    }
}

} // verus!
