//! The little 256-bit arithmetic that fee settlement needs, on values held
//! as four 64-bit limbs (see `u256_value`).
use vstd::prelude::*;

use super::u256_value;

verus! {

/// 2^64.
pub open spec fn word() -> int {
    0x1_0000_0000_0000_0000
}

/// 2^128.
pub open spec fn dword() -> int {
    word() * word()
}

/// The low 128 bits of a value.
pub open spec fn low_half(x: [u64; 4]) -> int {
    x[0] as int + x[1] as int * word()
}

/// The high 128 bits of a value.
pub open spec fn high_half(x: [u64; 4]) -> int {
    x[2] as int + x[3] as int * word()
}

/// A value is its high half times 2^128 plus its low half, each below 2^128.
proof fn lemma_halves(x: [u64; 4])
    ensures
        u256_value(x) == low_half(x) + high_half(x) * dword(),
        0 <= low_half(x) < dword(),
        0 <= high_half(x) < dword(),
{
    let x0 = x[0] as int;
    let x1 = x[1] as int;
    let x2 = x[2] as int;
    let x3 = x[3] as int;
    assert(x2 * dword() + x3 * (word() * dword()) == (x2 + x3 * word()) * dword()) by (nonlinear_arith);
    assert(x1 * word() <= (word() - 1) * word()) by (nonlinear_arith)
        requires
            0 <= x1 < word(),
    ;
    assert(x3 * word() <= (word() - 1) * word()) by (nonlinear_arith)
        requires
            0 <= x3 < word(),
    ;
    assert(x1 * word() >= 0) by (nonlinear_arith)
        requires
            0 <= x1,
    ;
    assert(x3 * word() >= 0) by (nonlinear_arith)
        requires
            0 <= x3,
    ;
}

/// The low half of a value, as a `u128`.
fn low_u128(x: &[u64; 4]) -> (r: u128)
    ensures
        r == low_half(*x),
{
    proof {
        lemma_halves(*x);
    }
    (x[1] as u128) * 0x1_0000_0000_0000_0000 + (x[0] as u128)
}

/// The high half of a value, as a `u128`.
fn high_u128(x: &[u64; 4]) -> (r: u128)
    ensures
        r == high_half(*x),
{
    proof {
        lemma_halves(*x);
    }
    (x[3] as u128) * 0x1_0000_0000_0000_0000 + (x[2] as u128)
}

/// The product of a 128-bit and a 64-bit number, which always fits.
pub fn mul_u128_u64(a: u128, b: u64) -> (r: [u64; 4])
    ensures
        u256_value(r) == a * b,
{
    let a0: u128 = a % 0x1_0000_0000_0000_0000;
    let a1: u128 = a / 0x1_0000_0000_0000_0000;
    let bb: u128 = b as u128;
    proof {
        assert(a0 * bb <= (word() - 1) * (word() - 1)) by (nonlinear_arith)
            requires
                0 <= a0 < word(),
                0 <= bb < word(),
        ;
        assert(a1 * bb <= (word() - 1) * (word() - 1)) by (nonlinear_arith)
            requires
                0 <= a1 < word(),
                0 <= bb < word(),
        ;
    }
    let p0: u128 = a0 * bb;
    let p1: u128 = a1 * bb;
    let c: u128 = p0 / 0x1_0000_0000_0000_0000;
    let s: u128 = p1 + c;
    let r0: u64 = (p0 % 0x1_0000_0000_0000_0000) as u64;
    let r1: u64 = (s % 0x1_0000_0000_0000_0000) as u64;
    let r2: u64 = (s / 0x1_0000_0000_0000_0000) as u64;
    let r: [u64; 4] = [r0, r1, r2, 0];
    proof {
        let w = word();
        assert(a == a0 + a1 * w);
        assert(p0 as int == (p0 as int % w) + (p0 as int / w) * w);
        assert(s as int == (s as int % w) + (s as int / w) * w);
        assert(u256_value(r) == r0 + r1 * w + r2 * (w * w));
        assert(r1 * w + r2 * (w * w) == (r1 + r2 * w) * w) by (nonlinear_arith);
        assert(u256_value(r) == r0 + s * w);
        assert(s * w == p1 * w + c * w) by (nonlinear_arith)
            requires
                s == p1 + c,
        ;
        assert((a0 + a1 * w) * bb == a0 * bb + (a1 * bb) * w) by (nonlinear_arith);
    }
    r
}

/// Whether the first value is at most the second.
pub fn le(x: &[u64; 4], y: &[u64; 4]) -> (r: bool)
    ensures
        r == (u256_value(*x) <= u256_value(*y)),
{
    let xh = high_u128(x);
    let yh = high_u128(y);
    let xl = low_u128(x);
    let yl = low_u128(y);
    proof {
        lemma_halves(*x);
        lemma_halves(*y);
        let d = dword();
        if xh < yh {
            assert(xh * d + xl < yh * d + yl) by (nonlinear_arith)
                requires
                    xh < yh,
                    0 <= xl < d,
                    0 <= yl < d,
            ;
        } else if xh > yh {
            assert(xh * d + xl > yh * d + yl) by (nonlinear_arith)
                requires
                    xh > yh,
                    0 <= xl < d,
                    0 <= yl < d,
            ;
        }
    }
    if xh != yh {
        xh < yh
    } else {
        xl <= yl
    }
}

/// The value made of a low and a high 128-bit half.
fn from_halves(lo: u128, hi: u128) -> (r: [u64; 4])
    ensures
        u256_value(r) == lo + hi * dword(),
{
    let r: [u64; 4] = [
        (lo % 0x1_0000_0000_0000_0000) as u64,
        (lo / 0x1_0000_0000_0000_0000) as u64,
        (hi % 0x1_0000_0000_0000_0000) as u64,
        (hi / 0x1_0000_0000_0000_0000) as u64,
    ];
    proof {
        lemma_halves(r);
        let w = word();
        assert(lo as int == (lo as int % w) + (lo as int / w) * w);
        assert(hi as int == (hi as int % w) + (hi as int / w) * w);
    }
    r
}

/// The difference of two values, the second at most the first.
pub fn difference(x: &[u64; 4], y: &[u64; 4]) -> (r: [u64; 4])
    requires
        u256_value(*y) <= u256_value(*x),
    ensures
        u256_value(r) == u256_value(*x) - u256_value(*y),
{
    let xl = low_u128(x);
    let yl = low_u128(y);
    let xh = high_u128(x);
    let yh = high_u128(y);
    proof {
        lemma_halves(*x);
        lemma_halves(*y);
        let d = dword();
        if xh < yh {
            assert(xh * d + xl < yh * d + yl) by (nonlinear_arith)
                requires
                    xh < yh,
                    0 <= xl < d,
                    0 <= yl < d,
            ;
        }
    }
    let ghost d = dword();
    if xl >= yl {
        let r = from_halves(xl - yl, xh - yh);
        proof {
            assert((xl - yl) + (xh - yh) * d == (xl + xh * d) - (yl + yh * d)) by (nonlinear_arith);
        }
        r
    } else {
        proof {
            if xh == yh {
                assert(xl + xh * d < yl + yh * d);
            }
        }
        let lo: u128 = (u128::MAX - yl) + xl + 1;
        let r = from_halves(lo, xh - yh - 1);
        proof {
            assert(lo == xl - yl + d);
            assert(lo + (xh - yh - 1) * d == (xl + xh * d) - (yl + yh * d)) by (nonlinear_arith)
                requires
                    lo == xl - yl + d,
            ;
        }
        r
    }
}

/// A value that fits in 128 bits, as a `u128`.
pub fn to_u128(x: &[u64; 4]) -> (r: u128)
    requires
        u256_value(*x) <= u128::MAX,
    ensures
        r == u256_value(*x),
{
    proof {
        lemma_halves(*x);
        let d = dword();
        let h = high_half(*x);
        let l = low_half(*x);
        assert(h == 0) by (nonlinear_arith)
            requires
                l + h * d <= d - 1,
                l >= 0,
                h >= 0,
                d > 0,
        ;
    }
    low_u128(x)
}

/// The product of a value and a 64-bit number where it fits in 128 bits.
pub fn checked_mul_u64_to_u128(x: &[u64; 4], b: u64) -> (r: Option<u128>)
    ensures
        r matches Some(p) ==> p == u256_value(*x) * b,
        r is None ==> u256_value(*x) * b > u128::MAX,
{
    proof {
        lemma_halves(*x);
    }
    if b == 0 {
        proof {
            assert(u256_value(*x) * b == 0) by (nonlinear_arith)
                requires
                    b == 0,
            ;
        }
        return Some(0);
    }
    if x[2] != 0 || x[3] != 0 {
        proof {
            let v = u256_value(*x);
            assert(high_half(*x) >= 1) by (nonlinear_arith)
                requires
                    high_half(*x) == x[2] as int + x[3] as int * word(),
                    x[2] != 0 || x[3] != 0,
                    x[2] >= 0,
                    x[3] >= 0,
                    word() > 0,
            ;
            assert(v >= dword()) by (nonlinear_arith)
                requires
                    v == low_half(*x) + high_half(*x) * dword(),
                    low_half(*x) >= 0,
                    high_half(*x) >= 1,
                    dword() > 0,
            ;
            assert(v * b >= v) by (nonlinear_arith)
                requires
                    v >= 0,
                    b >= 1,
            ;
        }
        return None;
    }
    let xl = low_u128(x);
    proof {
        assert(high_half(*x) == 0);
        assert(u256_value(*x) == xl);
    }
    xl.checked_mul(b as u128)
}

} // verus!
