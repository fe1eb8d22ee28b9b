//! Text encodings of addresses, and the fixed arithmetic of account creation.
use base58::ToBase58;
use vstd::prelude::*;
use vstd::string::StringSliceAdditionalSpecFns;
use vstd::utf8::encode_utf8;
use crate::text::{literal_bytes, push_bytes};

verus! {

/// The base58 text of a byte string.
pub uninterp spec fn base58_of(bytes: Seq<u8>) -> Seq<char>;

/// Relies on `base58::ToBase58::to_base58` for byte slices: the text it
/// returns depends on the bytes alone.
#[verifier::external_body]
fn to_base58(bytes: &[u8; 32]) -> (r: String)
    ensures
        r@ == base58_of(bytes@),
{
    bytes[..].to_base58()
}

/// The message logged when the running program is not the pinned one, whose
/// base58 text is `expected`.
pub open spec fn program_id_message_of(expected: Seq<char>) -> Seq<u8> {
    "program_id should be ".spec_bytes() + encode_utf8(expected)
}

/// The message naming `expected`, the base58 text of the pinned identity.
pub fn program_id_message(expected: &String) -> (r: Vec<u8>)
    ensures
        r@ == program_id_message_of(expected@),
{
    let mut r = literal_bytes("program_id should be ");
    push_bytes(&mut r, expected.as_str().as_bytes());
    r
}

/// The message logged when the running program is not `program_id`.
pub fn pinned_identity_message(program_id: &[u8; 32]) -> (r: Vec<u8>)
    ensures
        r@ == program_id_message_of(base58_of(program_id@)),
{
    let expected = to_base58(program_id);
    program_id_message(&expected)
}

/// Bytes of storage per account charged beside its data.
pub const ACCOUNT_STORAGE_OVERHEAD: u64 = 128;

/// Lamports charged per byte and year.
pub const LAMPORTS_PER_BYTE_YEAR: u64 = 3480;

/// Years of rent an exempt account holds.
pub const EXEMPTION_YEARS: u64 = 2;

/// The balance that keeps an account of `space` data bytes exempt from rent.
pub open spec fn rent_exempt(space: int) -> int {
    (space + 128) * 3480 * 2
}

/// The balance that keeps an account of `space` data bytes exempt from rent.
pub fn rent_lamports(space: u64) -> (r: u64)
    requires
        rent_exempt(space as int) <= u64::MAX,
    ensures
        r == rent_exempt(space as int),
{
    (space + ACCOUNT_STORAGE_OVERHEAD) * LAMPORTS_PER_BYTE_YEAR * EXEMPTION_YEARS
}

/// `size` rounded up to a multiple of 8.
pub open spec fn heap_offset_of(size: u64) -> u64 {
    ((size + 7) as u64) & !7u64
}

/// Where the heap starts in storage whose fixed fields take `size` bytes:
/// `size` rounded up to a multiple of 8.
pub fn heap_offset(size: u64) -> (r: u64)
    requires
        size <= u64::MAX - 7,
    ensures
        r == heap_offset_of(size),
        r >= size,
        r - size < 8,
        r % 8 == 0,
{
    let r = (size + 7) & !7u64;
    proof {
        lemma_heap_offset(size);
    }
    r
}

/// Rounding up to a multiple of 8 reaches the next multiple of 8 at or above
/// the size, and leaves a multiple of 8 as it is.
pub proof fn lemma_heap_offset(size: u64)
    requires
        size <= u64::MAX - 7,
    ensures
        heap_offset_of(size) >= size,
        heap_offset_of(size) - size < 8,
        heap_offset_of(size) % 8 == 0,
        heap_offset_of(heap_offset_of(size)) == heap_offset_of(size),
{
    let s = (size + 7) as u64;
    assert((s & !7u64) <= s && s - (s & !7u64) < 8 && (s & !7u64) % 8 == 0) by (bit_vector);
    let r = s & !7u64;
    assert(r <= u64::MAX - 7);
    assert(r % 8 == 0 ==> ((r + 7) as u64) & !7u64 == r) by (bit_vector)
        requires r <= u64::MAX - 7;
}

} // verus!
