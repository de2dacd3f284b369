//! Integer vector types and the small arithmetic helpers the voxel world
//! is built on: truncating division, powers of two, and an integer square
//! root.

use vstd::arithmetic::power2::lemma2_to64;
use vstd::arithmetic::power2::lemma_pow2_pos;
use vstd::arithmetic::power2::lemma_pow2_strictly_increases;
use vstd::arithmetic::power2::lemma_pow2_unfold;
use vstd::arithmetic::power2::pow2;
use vstd::prelude::*;

verus! {

/// A three-component vector of signed integers, used for global voxel
/// coordinates and chunk-grid coordinates.
#[derive(Clone, Copy, Debug, PartialEq, Eq, Structural)]
pub struct IVec3 {
    pub x: i32,
    pub y: i32,
    pub z: i32,
}

/// A three-component vector of unsigned integers, used for voxel
/// coordinates local to one chunk.
#[derive(Clone, Copy, Debug, PartialEq, Eq, Structural)]
pub struct UVec3 {
    pub x: u32,
    pub y: u32,
    pub z: u32,
}

impl IVec3 {
    pub fn new(x: i32, y: i32, z: i32) -> (r: IVec3)
        ensures
            r == (IVec3 { x, y, z }),
    {
        IVec3 { x, y, z }
    }
}

impl UVec3 {
    pub fn new(x: u32, y: u32, z: u32) -> (r: UVec3)
        ensures
            r == (UVec3 { x, y, z }),
    {
        UVec3 { x, y, z }
    }
}

/// 2 to the power `e`, computed by repeated doubling.
pub fn pow2_u32(e: u32) -> (r: u32)
    requires
        e < 32,
    ensures
        r == pow2(e as nat),
        r >= 1,
{
    proof {
        lemma2_to64();
    }
    let mut r: u32 = 1;
    let mut i: u32 = 0;
    while i < e
        invariant
            i <= e,
            e < 32,
            r == pow2(i as nat),
            r <= 0x8000_0000,
        decreases e - i,
    {
        proof {
            lemma_pow2_unfold((i + 1) as nat);
            if (i as nat) < 30 {
                lemma_pow2_strictly_increases(i as nat, 30);
            }
            lemma2_to64();
        }
        r = r * 2;
        i = i + 1;
    }
    proof {
        lemma_pow2_pos(e as nat);
    }
    r
}

/// Truncating division by a positive divisor, rounding toward zero as
/// Rust's `/` does.
pub open spec fn trunc_div(a: int, d: int) -> int {
    if a >= 0 {
        a / d
    } else {
        -((-a) / d)
    }
}

/// Integer square root: the largest `r` with `r * r <= n`.
pub fn isqrt(n: u32) -> (r: u32)
    ensures
        r * r <= n < (r + 1) * (r + 1),
{
    let mut r: u32 = 0;
    loop
        invariant
            r * r <= n,
            r <= 0xFFFF,
        ensures
            r * r <= n < (r + 1) * (r + 1),
        decreases n - r,
    {
        proof {
            assert(((r + 1) as int) * ((r + 1) as int) <= 0x1_0000_0000) by (nonlinear_arith)
                requires
                    r <= 0xFFFF,
            ;
        }
        let next: u64 = (r as u64 + 1) * (r as u64 + 1);
        if next <= n as u64 {
            proof {
                assert(r + 1 <= 0xFFFF) by (nonlinear_arith)
                    requires
                        ((r + 1) as int) * ((r + 1) as int) <= 0xFFFF_FFFF,
                ;
                assert(r + 1 <= n) by (nonlinear_arith)
                    requires
                        ((r + 1) as int) * ((r + 1) as int) <= n,
                ;
            }
            r = r + 1;
        } else {
            break;
        }
    }
    r
}

} // verus!
