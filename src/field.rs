//! Arithmetic in the prime field that the circuit's cells live in.
use vstd::prelude::*;

verus! {

/// Order of the field: p = 2^64 − 2^32 + 1. A cell holds a canonical
/// representative, an integer below p.
pub const MODULUS: u64 = 0xffff_ffff_0000_0001;

pub open spec fn modulus() -> int {
    MODULUS as int
}

/// Field image of a plain integer.
pub fn fe_from_u64(x: u64) -> (r: u64)
    ensures
        r as int == x as int % modulus(),
        r < MODULUS,
{
    x % MODULUS
}

/// `a · r + b` in the field, for any representatives `a`, `r` and `b`.
pub fn fe_mul_add(a: u64, r: u64, b: u64) -> (res: u64)
    ensures
        res as int == (a as int * r as int + b as int) % modulus(),
        res < MODULUS,
{
    let ai = a as u128;
    let ri = r as u128;
    assert(ai * ri <= 0xffff_ffff_ffff_ffffu128 * 0xffff_ffff_ffff_ffffu128) by (nonlinear_arith)
        requires
            ai <= 0xffff_ffff_ffff_ffffu128,
            ri <= 0xffff_ffff_ffff_ffffu128,
    ;
    let s: u128 = ai * ri + b as u128;
    (s % (MODULUS as u128)) as u64
}

} // verus!
