//! Numeric coercions between the engine's floating-point widths and the
//! host's numerics, carried out on IEEE-754 bit patterns with integer
//! arithmetic alone. A 32-bit float is a `u32` bit pattern and a 64-bit
//! float is a `u64` bit pattern throughout this crate.

use vstd::prelude::*;
use vstd::arithmetic::power2::{
    pow2, lemma2_to64, lemma2_to64_rest, lemma_pow2_adds, lemma_pow2_pos,
    lemma_pow2_strictly_increases,
};
use vstd::arithmetic::mul::{lemma_mul_inequality, lemma_mul_strict_inequality};
use vstd::arithmetic::div_mod::{
    lemma_div_is_ordered, lemma_div_is_ordered_by_denominator, lemma_fundamental_div_mod,
    lemma_fundamental_div_mod_converse,
};

verus! {

/// The position of the highest set bit of `m`, for `m >= 1`.
pub open spec fn spec_msb(m: int) -> nat
    decreases m when m >= 1
{
    if m < 2 {
        0
    } else {
        1 + spec_msb(m / 2)
    }
}

/// The highest set bit of `m` brackets `m` between two powers of two.
pub proof fn lemma_msb_bounds(m: int)
    requires
        m >= 1,
    ensures
        pow2(spec_msb(m)) <= m < pow2(spec_msb(m) + 1),
    decreases m,
{
    if m < 2 {
        lemma2_to64();
    } else {
        lemma_msb_bounds(m / 2);
        lemma_pow2_adds(spec_msb(m / 2), 1);
        lemma_pow2_adds(spec_msb(m / 2) + 1, 1);
        lemma2_to64();
    }
}

/// A number below `pow2(e)` has its highest set bit below `e`.
pub proof fn lemma_msb_below(m: int, e: nat)
    requires
        1 <= m < pow2(e),
    ensures
        spec_msb(m) < e,
{
    lemma_msb_bounds(m);
    if spec_msb(m) > e {
        lemma_pow2_strictly_increases(e, spec_msb(m));
    }
}

/// Computes the position of the highest set bit of `m`.
fn msb_u64(m: u64) -> (r: u64)
    requires
        m >= 1,
    ensures
        r == spec_msb(m as int),
        r <= 63,
{
    proof {
        lemma2_to64_rest();
        lemma_msb_below(m as int, 64);
    }
    let mut t: u64 = m;
    let mut k: u64 = 0;
    while t >= 2
        invariant
            t >= 1,
            spec_msb(m as int) == k + spec_msb(t as int),
            k <= spec_msb(m as int) <= 63,
        decreases t,
    {
        t = t / 2;
        k = k + 1;
    }
    k
}

/// Computes `pow2(e)` for `e <= 63`.
fn pow2_u64(e: u64) -> (r: u64)
    requires
        e <= 63,
    ensures
        r as int == pow2(e as nat),
{
    let mut i: u64 = 0;
    let mut p: u64 = 1;
    proof {
        lemma2_to64();
    }
    while i < e
        invariant
            i <= e <= 63,
            p as int == pow2(i as nat),
        decreases e - i,
    {
        proof {
            if i < 62 {
                lemma_pow2_strictly_increases(i as nat, 62);
            }
            lemma2_to64_rest();
            lemma_pow2_adds(i as nat, 1);
            lemma2_to64();
        }
        p = p * 2;
        i = i + 1;
    }
    p
}

/// `x / pow2(sh)` rounded to the nearest integer, ties to even.
pub open spec fn spec_rne(x: int, sh: nat) -> int
    recommends
        x >= 0,
        sh >= 1,
{
    let d = pow2(sh) as int;
    let q = x / d;
    let rem = x % d;
    let half = pow2((sh - 1) as nat) as int;
    if rem > half || (rem == half && q % 2 == 1) {
        q + 1
    } else {
        q
    }
}

/// Computes `spec_rne(x, sh)`: division by `pow2(sh)` rounded to nearest,
/// ties to even.
fn rne_u64(x: u64, sh: u64) -> (r: u64)
    requires
        1 <= sh <= 63,
    ensures
        r as int == spec_rne(x as int, sh as nat),
        r as int <= x as int / pow2(sh as nat) as int + 1,
{
    let d = pow2_u64(sh);
    proof {
        lemma_pow2_pos(sh as nat);
        lemma_pow2_adds((sh - 1) as nat, 1);
        lemma2_to64();
        lemma_div_is_ordered_by_denominator(x as int, 2, d as int);
    }
    let q = x / d;
    let rem = x % d;
    let half = d / 2;
    if rem > half || (rem == half && q % 2 == 1) {
        q + 1
    } else {
        q
    }
}

/// The 64-bit pattern with the same value as the 32-bit pattern `b`: the
/// widening is exact. An infinity stays an infinity; a not-a-number keeps its
/// payload in the top fraction bits; a subnormal is renormalized.
pub open spec fn spec_f32_to_f64(b: int) -> int {
    let sign = b / 0x80000000;
    let e = (b / 0x800000) % 0x100;
    let m = b % 0x800000;
    if e == 0xff {
        sign * 0x8000000000000000 + 0x7ff0000000000000 + m * 0x20000000
    } else if e == 0 {
        if m == 0 {
            sign * 0x8000000000000000
        } else {
            let k = spec_msb(m) as int;
            sign * 0x8000000000000000 + (874 + k) * 0x10000000000000 + (m * pow2(
                (52 - k) as nat,
            ) - 0x10000000000000)
        }
    } else {
        sign * 0x8000000000000000 + (e + 896) * 0x10000000000000 + m * 0x20000000
    }
}

/// Widens a 32-bit float, given as its bit pattern, to the 64-bit pattern
/// with the same value.
pub fn f32_bits_to_f64_bits(b: u32) -> (r: u64)
    ensures
        r as int == spec_f32_to_f64(b as int),
{
    let sign: u64 = (b / 0x80000000) as u64;
    let e: u32 = (b / 0x800000) % 0x100;
    let m: u64 = (b % 0x800000) as u64;
    if e == 0xff {
        sign * 0x8000000000000000 + 0x7ff0000000000000 + m * 0x20000000
    } else if e == 0 {
        if m == 0 {
            sign * 0x8000000000000000
        } else {
            proof {
                lemma2_to64();
                lemma_msb_below(m as int, 23);
            }
            let k = msb_u64(m);
            let p = pow2_u64(52 - k);
            proof {
                lemma_msb_bounds(m as int);
                lemma_pow2_adds(k as nat, (52 - k) as nat);
                lemma_pow2_adds((k + 1) as nat, (52 - k) as nat);
                lemma_pow2_pos((52 - k) as nat);
                lemma_mul_inequality(pow2(k as nat) as int, m as int, pow2((52 - k) as nat) as int);
                lemma_mul_strict_inequality(
                    m as int,
                    pow2((k + 1) as nat) as int,
                    pow2((52 - k) as nat) as int,
                );
                lemma2_to64_rest();
            }
            sign * 0x8000000000000000 + (874 + k) * 0x10000000000000 + (m * p - 0x10000000000000)
        }
    } else {
        sign * 0x8000000000000000 + ((e as u64) + 896) * 0x10000000000000 + m * 0x20000000
    }
}

/// The 64-bit float pattern nearest to the integer `v` (ties to even).
/// Integers of magnitude below `pow2(53)` convert exactly.
pub open spec fn spec_i64_to_f64(v: int) -> int {
    if v == 0 {
        0
    } else {
        let sign: int = if v < 0 {
            1
        } else {
            0
        };
        let mag: int = if v < 0 {
            -v
        } else {
            v
        };
        let k = spec_msb(mag) as int;
        if k <= 52 {
            sign * 0x8000000000000000 + (1023 + k) * 0x10000000000000 + (mag * pow2(
                (52 - k) as nat,
            ) - 0x10000000000000)
        } else {
            sign * 0x8000000000000000 + (1022 + k) * 0x10000000000000 + spec_rne(
                mag,
                (k - 52) as nat,
            )
        }
    }
}

/// Converts a host integer to the nearest 64-bit float, as a bit pattern.
pub fn i64_to_f64_bits(v: i64) -> (r: u64)
    ensures
        r as int == spec_i64_to_f64(v as int),
{
    if v == 0 {
        return 0;
    }
    let sign: u64 = if v < 0 {
        1
    } else {
        0
    };
    let mag: u64 = if v < 0 {
        (-(v as i128)) as u64
    } else {
        v as u64
    };
    let k = msb_u64(mag);
    if k <= 52 {
        let p = pow2_u64(52 - k);
        proof {
            lemma_msb_bounds(mag as int);
            lemma_pow2_pos((52 - k) as nat);
            lemma_pow2_adds(k as nat, (52 - k) as nat);
            lemma_pow2_adds((k + 1) as nat, (52 - k) as nat);
            lemma_mul_inequality(pow2(k as nat) as int, mag as int, pow2((52 - k) as nat) as int);
            lemma_mul_strict_inequality(
                mag as int,
                pow2((k + 1) as nat) as int,
                pow2((52 - k) as nat) as int,
            );
            lemma2_to64();
            lemma2_to64_rest();
        }
        sign * 0x8000000000000000 + (1023 + k) * 0x10000000000000 + (mag * p - 0x10000000000000)
    } else {
        let keep = rne_u64(mag, k - 52);
        proof {
            lemma_msb_bounds(mag as int);
            lemma_pow2_pos((k - 52) as nat);
            lemma_pow2_adds(52, (k - 52) as nat);
            lemma_div_is_ordered(
                pow2(k as nat) as int,
                mag as int,
                pow2((k - 52) as nat) as int,
            );
            lemma_pow2_adds(53, (k - 52) as nat);
            lemma_div_is_ordered(
                mag as int,
                pow2((k + 1) as nat) as int - 1,
                pow2((k - 52) as nat) as int,
            );
            lemma_pow2_adds(k as nat, 1);
            lemma_pow2_pos(53);
            lemma_div_bound_by_multiple(
                pow2((k + 1) as nat) as int - 1,
                pow2((k - 52) as nat) as int,
                pow2(53) as int,
            );
            lemma_pow2_div_pow2(k as nat, (k - 52) as nat);
            lemma2_to64();
            lemma2_to64_rest();
        }
        sign * 0x8000000000000000 + (1022 + k) * 0x10000000000000 + keep
    }
}

/// The 32-bit float pattern nearest to the integer `v` (ties to even).
/// Integers of magnitude below `pow2(24)` convert exactly; no 64-bit integer
/// overflows the 32-bit float range.
pub open spec fn spec_i64_to_f32(v: int) -> int {
    if v == 0 {
        0
    } else {
        let sign: int = if v < 0 {
            1
        } else {
            0
        };
        let mag: int = if v < 0 {
            -v
        } else {
            v
        };
        let k = spec_msb(mag) as int;
        if k <= 23 {
            sign * 0x80000000 + (127 + k) * 0x800000 + (mag * pow2((23 - k) as nat) - 0x800000)
        } else {
            sign * 0x80000000 + (126 + k) * 0x800000 + spec_rne(mag, (k - 23) as nat)
        }
    }
}

/// Converts a host integer to the nearest 32-bit float, as a bit pattern.
pub fn i64_to_f32_bits(v: i64) -> (r: u32)
    ensures
        r as int == spec_i64_to_f32(v as int),
{
    if v == 0 {
        return 0;
    }
    let sign: u64 = if v < 0 {
        1
    } else {
        0
    };
    let mag: u64 = if v < 0 {
        (-(v as i128)) as u64
    } else {
        v as u64
    };
    let k = msb_u64(mag);
    if k <= 23 {
        let p = pow2_u64(23 - k);
        proof {
            lemma_msb_bounds(mag as int);
            lemma_pow2_pos((23 - k) as nat);
            lemma_pow2_adds(k as nat, (23 - k) as nat);
            lemma_pow2_adds((k + 1) as nat, (23 - k) as nat);
            lemma_mul_inequality(pow2(k as nat) as int, mag as int, pow2((23 - k) as nat) as int);
            lemma_mul_strict_inequality(
                mag as int,
                pow2((k + 1) as nat) as int,
                pow2((23 - k) as nat) as int,
            );
            lemma2_to64();
        }
        let r64: u64 = sign * 0x80000000 + (127 + k) * 0x800000 + (mag * p - 0x800000);
        r64 as u32
    } else {
        let keep = rne_u64(mag, k - 23);
        proof {
            lemma_msb_bounds(mag as int);
            lemma_pow2_pos((k - 23) as nat);
            lemma_pow2_adds(k as nat, 1);
            lemma_pow2_adds(24, (k - 23) as nat);
            lemma_pow2_pos(24);
            lemma_div_bound_by_multiple(
                pow2((k + 1) as nat) as int - 1,
                pow2((k - 23) as nat) as int,
                pow2(24) as int,
            );
            lemma_div_is_ordered(
                mag as int,
                pow2((k + 1) as nat) as int - 1,
                pow2((k - 23) as nat) as int,
            );
            lemma2_to64();
        }
        let r64: u64 = sign * 0x80000000 + (126 + k) * 0x800000 + keep;
        r64 as u32
    }
}

/// The 32-bit pattern nearest in value to the 64-bit pattern `b` (ties to
/// even). Values beyond the 32-bit range become an infinity, values below the
/// smallest 32-bit subnormal become a zero of the same sign, and every
/// not-a-number becomes the canonical quiet not-a-number of the same sign.
pub open spec fn spec_f64_to_f32(b: int) -> int {
    let sign = b / 0x8000000000000000;
    let e = (b / 0x10000000000000) % 0x800;
    let m = b % 0x10000000000000;
    if e == 0x7ff {
        if m == 0 {
            sign * 0x80000000 + 0x7f800000
        } else {
            sign * 0x80000000 + 0x7fc00000
        }
    } else {
        let sig = if e == 0 {
            m
        } else {
            0x10000000000000 + m
        };
        let ne = (if e == 0 {
            1
        } else {
            e
        }) - 896;
        if ne >= 255 {
            sign * 0x80000000 + 0x7f800000
        } else if ne >= 1 {
            sign * 0x80000000 + (ne - 1) * 0x800000 + spec_rne(sig, 29)
        } else if 30 - ne > 53 {
            sign * 0x80000000
        } else {
            sign * 0x80000000 + spec_rne(sig, (30 - ne) as nat)
        }
    }
}

/// Narrows a 64-bit float, given as its bit pattern, to the nearest 32-bit
/// float's bit pattern, rounding ties to even.
pub fn f64_bits_to_f32_bits(b: u64) -> (r: u32)
    ensures
        r as int == spec_f64_to_f32(b as int),
{
    let sign: u64 = b / 0x8000000000000000;
    let e: u64 = (b / 0x10000000000000) % 0x800;
    let m: u64 = b % 0x10000000000000;
    if e == 0x7ff {
        if m == 0 {
            (sign * 0x80000000 + 0x7f800000) as u32
        } else {
            (sign * 0x80000000 + 0x7fc00000) as u32
        }
    } else {
        let sig: u64 = if e == 0 {
            m
        } else {
            0x10000000000000 + m
        };
        let eeff: u64 = if e == 0 {
            1
        } else {
            e
        };
        if eeff >= 1151 {
            (sign * 0x80000000 + 0x7f800000) as u32
        } else if eeff >= 897 {
            let keep = rne_u64(sig, 29);
            proof {
                lemma_pow2_pos(29);
                lemma_pow2_adds(24, 29);
                lemma_pow2_pos(24);
                lemma2_to64();
                lemma2_to64_rest();
                lemma_div_bound_by_multiple(sig as int, pow2(29) as int, pow2(24) as int);
            }
            (sign * 0x80000000 + (eeff - 897) * 0x800000 + keep) as u32
        } else if eeff < 873 {
            (sign * 0x80000000) as u32
        } else {
            let keep = rne_u64(sig, 926 - eeff);
            proof {
                lemma_pow2_pos((926 - eeff) as nat);
                lemma_pow2_adds(23, (926 - eeff) as nat);
                lemma_pow2_pos(23);
                if eeff < 896 {
                    lemma_pow2_strictly_increases(53, (23 + (926 - eeff)) as nat);
                }
                lemma2_to64();
                lemma2_to64_rest();
                lemma_div_bound_by_multiple(
                    sig as int,
                    pow2((926 - eeff) as nat) as int,
                    pow2(23) as int,
                );
            }
            (sign * 0x80000000 + keep) as u32
        }
    }
}

/// The 64-bit two's-complement pattern of the value of the 64-bit float `b`
/// truncated toward zero, reduced modulo `pow2(64)`. A not-a-number and both
/// infinities truncate to zero.
pub open spec fn spec_f64_trunc(b: int) -> int {
    let sign = b / 0x8000000000000000;
    let e = (b / 0x10000000000000) % 0x800;
    let m = b % 0x10000000000000;
    if e == 0x7ff {
        0
    } else if e < 1023 {
        0
    } else {
        let sig = 0x10000000000000 + m;
        let p = e - 1023;
        let mag = if p <= 52 {
            sig / pow2((52 - p) as nat) as int
        } else if p >= 116 {
            0
        } else {
            (sig * pow2((p - 52) as nat)) % 0x10000000000000000
        };
        if sign == 1 {
            (0x10000000000000000 - mag) % 0x10000000000000000
        } else {
            mag
        }
    }
}

/// `(x * pow2(sh)) % pow2(64)` keeps only the low bits of `x`, shifted.
proof fn lemma_mul_pow2_mod64(x: int, sh: nat)
    requires
        0 <= x,
        sh <= 64,
    ensures
        (x * pow2(sh)) % pow2(64) as int == (x % pow2((64 - sh) as nat) as int) * pow2(sh) as int,
{
    let a = pow2((64 - sh) as nat) as int;
    let q = x / a;
    let r = x % a;
    lemma_pow2_pos((64 - sh) as nat);
    lemma_pow2_pos(sh);
    lemma_pow2_pos(64);
    lemma_pow2_adds((64 - sh) as nat, sh);
    lemma_fundamental_div_mod(x, a);
    assert((q * a + r) * pow2(sh) == q * (a * pow2(sh)) + r * pow2(sh)) by (nonlinear_arith);
    vstd::arithmetic::div_mod::lemma_mod_multiples_vanish(
        q,
        r * pow2(sh) as int,
        pow2(64) as int,
    );
    lemma_mul_strict_inequality(r, a, pow2(sh) as int);
    vstd::arithmetic::div_mod::lemma_small_mod((r * pow2(sh) as int) as nat, pow2(64));
    vstd::arithmetic::mul::lemma_mul_nonnegative(r, pow2(sh) as int);
}

/// Truncates the value of the 64-bit float `b` toward zero and reduces it to
/// a 64-bit two's-complement pattern. A not-a-number and both infinities give
/// zero.
pub fn f64_trunc_bits(b: u64) -> (r: u64)
    ensures
        r as int == spec_f64_trunc(b as int),
{
    let sign: u64 = b / 0x8000000000000000;
    let e: u64 = (b / 0x10000000000000) % 0x800;
    let m: u64 = b % 0x10000000000000;
    if e == 0x7ff {
        return 0;
    }
    if e < 1023 {
        return 0;
    }
    let sig: u64 = 0x10000000000000 + m;
    let p: u64 = e - 1023;
    let mag: u64 = if p <= 52 {
        let d = pow2_u64(52 - p);
        proof {
            lemma_pow2_pos((52 - p) as nat);
        }
        sig / d
    } else if p >= 116 {
        0
    } else {
        let sh = p - 52;
        let lowmod = pow2_u64(64 - sh);
        proof {
            lemma_pow2_pos((64 - sh) as nat);
            lemma_pow2_pos(sh as nat);
            lemma_pow2_adds((64 - sh) as nat, sh as nat);
            lemma_mul_strict_inequality(
                sig as int % pow2((64 - sh) as nat) as int,
                pow2((64 - sh) as nat) as int,
                pow2(sh as nat) as int,
            );
            lemma_mul_pow2_mod64(sig as int, sh as nat);
            lemma2_to64_rest();
        }
        (sig % lowmod) * pow2_u64(sh)
    };
    proof {
        if p <= 52 {
            lemma_pow2_pos((52 - p) as nat);
        }
    }
    if sign == 1 {
        if mag == 0 {
            0
        } else {
            (0xffffffffffffffff - mag) + 1
        }
    } else {
        mag
    }
}

/// A 64-bit pattern assembled from a sign, an 11-bit exponent field and a
/// 52-bit fraction decomposes back into the same fields.
proof fn lemma_f64_fields(sign: int, e: int, m: int)
    requires
        0 <= sign <= 1,
        0 <= e < 0x800,
        0 <= m < 0x10000000000000,
    ensures
        ({
            let w = sign * 0x8000000000000000 + e * 0x10000000000000 + m;
            w / 0x8000000000000000 == sign && (w / 0x10000000000000) % 0x800 == e && w
                % 0x10000000000000 == m && 0 <= w < 0x10000000000000000
        }),
{
    let w = sign * 0x8000000000000000 + e * 0x10000000000000 + m;
    assert(sign * 0x8000000000000000 + e * 0x10000000000000 + m == (sign * 0x800 + e)
        * 0x10000000000000 + m) by (nonlinear_arith);
    lemma_fundamental_div_mod_converse(w, 0x10000000000000, sign * 0x800 + e, m);
    lemma_fundamental_div_mod_converse(sign * 0x800 + e, 0x800, sign, e);
    lemma_fundamental_div_mod_converse(w, 0x8000000000000000, sign, e * 0x10000000000000 + m);
}

/// Widening a 32-bit pattern and narrowing the result gives the pattern back:
/// every 32-bit float value is represented exactly at 64 bits. The one
/// exception is a not-a-number, which narrowing canonicalizes.
pub proof fn lemma_narrow_of_widen(s: int)
    requires
        0 <= s < 0x100000000,
        !((s / 0x800000) % 0x100 == 0xff && s % 0x800000 != 0),
    ensures
        0 <= spec_f32_to_f64(s) < 0x10000000000000000,
        spec_f64_to_f32(spec_f32_to_f64(s)) == s,
{
    let sign = s / 0x80000000;
    let e = (s / 0x800000) % 0x100;
    let m = s % 0x800000;
    // s itself is assembled from its fields.
    lemma_fundamental_div_mod(s, 0x800000);
    lemma_fundamental_div_mod(s / 0x800000, 0x100);
    vstd::arithmetic::div_mod::lemma_div_denominator(s, 0x800000, 0x100);
    vstd::arithmetic::div_mod::lemma_mod_bound(s, 0x800000);
    vstd::arithmetic::div_mod::lemma_mod_bound(s / 0x800000, 0x100);
    assert(s == (sign * 0x100 + e) * 0x800000 + m) by (nonlinear_arith)
        requires
            s / 0x800000 == sign * 0x100 + e,
            s == (s / 0x800000) * 0x800000 + m,
    ;
    if e == 0xff {
        lemma_f64_fields(sign, 0x7ff, 0);
    } else if e == 0 && m == 0 {
        lemma_f64_fields(sign, 0, 0);
    } else if e == 0 {
        let k = spec_msb(m) as int;
        lemma2_to64();
        lemma_msb_bounds(m);
        lemma_msb_below(m, 23);
        lemma_pow2_pos((52 - k) as nat);
        lemma_pow2_pos((51 - k) as nat);
        lemma_pow2_adds(k as nat, (52 - k) as nat);
        lemma_pow2_adds((k + 1) as nat, (52 - k) as nat);
        lemma_mul_inequality(pow2(k as nat) as int, m, pow2((52 - k) as nat) as int);
        lemma_mul_strict_inequality(m, pow2((k + 1) as nat) as int, pow2((52 - k) as nat) as int);
        lemma2_to64();
        lemma2_to64_rest();
        let frac = m * pow2((52 - k) as nat) - 0x10000000000000;
        lemma_f64_fields(sign, 874 + k, frac);
        // the narrowing divides the significand back down exactly
        lemma_fundamental_div_mod_converse(
            m * pow2((52 - k) as nat),
            pow2((52 - k) as nat) as int,
            m,
            0,
        );
    } else {
        lemma2_to64();
        lemma2_to64_rest();
        lemma_f64_fields(sign, e + 896, m * 0x20000000);
        assert(0x10000000000000 + m * 0x20000000 == (0x800000 + m) * 0x20000000)
            by (nonlinear_arith);
        lemma_fundamental_div_mod_converse(
            0x10000000000000 + m * 0x20000000,
            0x20000000,
            0x800000 + m,
            0,
        );
    }
}

/// Truncating the 64-bit float nearest to an integer of magnitude below
/// `pow2(53)` gives the integer back, as its 64-bit two's-complement pattern:
/// such integers convert to a float exactly.
pub proof fn lemma_trunc_of_i64_to_f64(v: int)
    requires
        -0x20000000000000 < v < 0x20000000000000,
    ensures
        0 <= spec_i64_to_f64(v) < 0x10000000000000000,
        spec_f64_trunc(spec_i64_to_f64(v)) == (if v >= 0 {
            v
        } else {
            v + 0x10000000000000000
        }),
{
    if v == 0 {
        return ;
    }
    let sign: int = if v < 0 {
        1
    } else {
        0
    };
    let mag: int = if v < 0 {
        -v
    } else {
        v
    };
    let k = spec_msb(mag) as int;
    lemma2_to64();
    lemma2_to64_rest();
    lemma_msb_bounds(mag);
    lemma_msb_below(mag, 53);
    lemma_pow2_pos((52 - k) as nat);
    lemma_pow2_adds(k as nat, (52 - k) as nat);
    lemma_pow2_adds((k + 1) as nat, (52 - k) as nat);
    lemma_mul_inequality(pow2(k as nat) as int, mag, pow2((52 - k) as nat) as int);
    lemma_mul_strict_inequality(mag, pow2((k + 1) as nat) as int, pow2((52 - k) as nat) as int);
    let frac = mag * pow2((52 - k) as nat) - 0x10000000000000;
    lemma_f64_fields(sign, 1023 + k, frac);
    lemma_fundamental_div_mod_converse(
        mag * pow2((52 - k) as nat),
        pow2((52 - k) as nat) as int,
        mag,
        0,
    );
    if sign == 1 {
        vstd::arithmetic::div_mod::lemma_small_mod((0x10000000000000000 - mag) as nat, pow2(64));
    }
}

/// `pow2(a) / pow2(b) == pow2(a - b)` for `b <= a`.
proof fn lemma_pow2_div_pow2(a: nat, b: nat)
    requires
        b <= a,
    ensures
        pow2(a) as int / pow2(b) as int == pow2((a - b) as nat),
{
    lemma_pow2_adds((a - b) as nat, b);
    lemma_pow2_pos(b);
    lemma_pow2_pos((a - b) as nat);
    vstd::arithmetic::div_mod::lemma_div_multiples_vanish(
        pow2((a - b) as nat) as int,
        pow2(b) as int,
    );
}

/// For `x < m * d` with `d > 0`, the quotient `x / d` stays below `m`.
proof fn lemma_div_bound_by_multiple(x: int, d: int, m: int)
    requires
        d > 0,
        m > 0,
        0 <= x,
        x < m * d,
    ensures
        x / d < m,
{
    if x / d >= m {
        lemma_fundamental_div_mod(x, d);
        lemma_mul_inequality(m, x / d, d);
    }
}

} // verus!
