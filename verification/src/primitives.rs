use vstd::arithmetic::power2::pow2;
use vstd::prelude::*;

verus! {

/// A point, in whatever unit the coordinate type `T` stands for.
#[derive(Clone, Copy, Debug, PartialEq, Eq)]
pub struct Position<T> {
    pub x: T,
    pub y: T,
}

/// An extent, in whatever unit the coordinate type `T` stands for.
#[derive(Clone, Copy, Debug, PartialEq, Eq)]
pub struct Size<T> {
    pub width: T,
    pub height: T,
}

/// A 64-bit floating-point number, held as its IEEE 754 bit pattern.
///
/// The engine only carries such numbers from the window backend to the
/// layers; it never computes with them.
#[derive(Clone, Copy, Debug, PartialEq, Eq, Structural)]
pub struct FloatBits(pub u64);

/// The mask with only bit `i` set.
pub fn bit(i: u8) -> (mask: u32)
    requires
        i < 32,
    ensures
        mask == 1u32 << i,
        mask as nat == pow2(i as nat),
{
    proof {
        vstd::bits::lemma_u32_pow2_no_overflow(i as nat);
        vstd::bits::lemma_u32_shl_is_mul(1u32, i as u32);
    }
    1u32 << (i as u32)
}

} // verus!
