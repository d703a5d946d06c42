use vstd::prelude::*;
use vstd::string::StringSliceAdditionalSpecFns;

verus! {

/// The offset basis of the 32-bit FNV-1a hash.
pub const FNV_OFFSET_BASIS: u32 = 2_166_136_261;

/// The prime of the 32-bit FNV-1a hash.
pub const FNV_PRIME: u32 = 16_777_619;

/// Number of colours in the sender palette.
pub const PALETTE_SIZE: usize = 8;

/// The 32-bit FNV-1a hash of the bytes from position `i` on, folded into
/// the accumulator `acc`.
pub open spec fn spec_fnv1a(bytes: Seq<u8>, i: int, acc: u32) -> u32
    decreases bytes.len() - i,
    when 0 <= i <= bytes.len()
{
    if i >= bytes.len() {
        acc
    } else {
        spec_fnv1a(
            bytes,
            i + 1,
            (((acc ^ (bytes[i] as u32)) as int * FNV_PRIME as int) % 0x1_0000_0000) as u32,
        )
    }
}

/// The stable hash under which a sender is assigned a palette colour:
/// 32-bit FNV-1a over the user id's UTF-8 bytes.
pub fn hash_user_id(user_id: &str) -> (r: usize)
    ensures
        r == spec_fnv1a(user_id.spec_bytes(), 0, FNV_OFFSET_BASIS) as usize,
{
    let bytes = user_id.as_bytes();
    let mut hash: u32 = FNV_OFFSET_BASIS;
    let mut i: usize = 0;
    while i < bytes.len()
        invariant
            i <= bytes@.len(),
            bytes@ == user_id.spec_bytes(),
            spec_fnv1a(bytes@, 0, FNV_OFFSET_BASIS) == spec_fnv1a(bytes@, i as int, hash),
        decreases bytes@.len() - i,
    {
        hash = hash ^ (bytes[i] as u32);
        hash = hash.wrapping_mul(FNV_PRIME);
        i = i + 1;
    }
    hash as usize
}

/// The palette slot a sender's messages are coloured with; the colour
/// values themselves belong to the rendering layer.
pub fn sender_color_index(user_id: &str) -> (r: usize)
    ensures
        r == spec_fnv1a(user_id.spec_bytes(), 0, FNV_OFFSET_BASIS) as usize % 8,
        r < 8,
{
    hash_user_id(user_id) % PALETTE_SIZE
}

} // verus!
