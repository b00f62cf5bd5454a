use vstd::prelude::*;

verus! {

/// Value of `bytes` read as an unsigned integer, least significant byte first.
pub open spec fn le_value(bytes: Seq<u8>) -> nat
    decreases bytes.len(),
{
    if bytes.len() == 0 {
        0
    } else {
        bytes[0] as nat + 256 * le_value(bytes.drop_first())
    }
}

/// Value of `bytes` read as an unsigned integer, most significant byte first.
pub open spec fn be_value(bytes: Seq<u8>) -> nat
    decreases bytes.len(),
{
    if bytes.len() == 0 {
        0
    } else {
        be_value(bytes.drop_last()) * 256 + bytes.last() as nat
    }
}

/// `w` is `bytes` read in the machine's byte order, which is one of the two.
pub open spec fn is_native_word(bytes: Seq<u8>, w: nat) -> bool {
    w == le_value(bytes) || w == be_value(bytes)
}

/// rand's error type, carried from the wrapped generator to the caller as it
/// came; nothing is assumed of what it holds.
#[verifier::external_type_specification]
#[verifier::external_body]
pub struct ExRandError(rand::Error);

/// Relies on rand_core's `RngCore::fill_bytes`: it writes into the slice it is
/// handed, here the part of `dest` from `start` on, and nowhere else.
#[verifier::external_body]
pub(crate) fn fill_from<R: rand::RngCore>(rng: &mut R, dest: &mut [u8], start: usize)
    requires
        start <= old(dest)@.len(),
    ensures
        final(dest)@.len() == old(dest)@.len(),
        final(dest)@.subrange(0, start as int) == old(dest)@.subrange(0, start as int),
{
    rng.fill_bytes(&mut dest[start..])
}

/// Relies on rand_core's `RngCore::try_fill_bytes`: it writes into the slice it
/// is handed, here the part of `dest` from `start` on, and nowhere else; it may
/// report the source's error.
#[verifier::external_body]
pub(crate) fn try_fill_from<R: rand::RngCore>(rng: &mut R, dest: &mut [u8], start: usize) -> (r:
    Result<(), rand::Error>)
    requires
        start <= old(dest)@.len(),
    ensures
        final(dest)@.len() == old(dest)@.len(),
        final(dest)@.subrange(0, start as int) == old(dest)@.subrange(0, start as int),
{
    rng.try_fill_bytes(&mut dest[start..])
}

/// Relies on rand's `Rng::gen::<u8>`: one byte drawn from the generator; any
/// value may come.
#[verifier::external_body]
pub(crate) fn fresh_byte<R: rand::RngCore>(rng: &mut R) -> (r: u8) {
    rand::Rng::gen::<u8>(rng)
}

/// Relies on std's `u32::from_ne_bytes`: the bytes read in the machine's order.
#[verifier::external_body]
pub(crate) fn u32_from_native(bytes: [u8; 4]) -> (r: u32)
    ensures
        is_native_word(bytes@, r as nat),
{
    u32::from_ne_bytes(bytes)
}

/// Relies on std's `u64::from_ne_bytes`: the bytes read in the machine's order.
#[verifier::external_body]
pub(crate) fn u64_from_native(bytes: [u8; 8]) -> (r: u64)
    ensures
        is_native_word(bytes@, r as nat),
{
    u64::from_ne_bytes(bytes)
}

} // verus!
