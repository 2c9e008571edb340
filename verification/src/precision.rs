use vstd::prelude::*;

verus! {

/// `m` shifted right by `shift` bits and rounded to nearest, ties to even:
/// the rounding of IEEE-754 arithmetic.
pub open spec fn shift_round_even(m: u64, shift: u64) -> int {
    let q = m >> shift;
    let rest = m & (((1u64 << shift) - 1) as u64);
    let half = 1u64 << ((shift - 1) as u64);
    if rest > half || (rest == half && q & 1 == 1) {
        q + 1
    } else {
        q as int
    }
}

/// The sign bit of a double-precision pattern, in single-precision position.
pub open spec fn single_sign(b: u64) -> int {
    if b >> 63u64 == 1 {
        0x8000_0000
    } else {
        0
    }
}

/// The single-precision pattern, without its sign, nearest to the double
/// with bit pattern `b`. A double has an 11-bit exponent biased by 1023 and a
/// 52-bit fraction; a single an 8-bit exponent biased by 127 and a 23-bit
/// fraction. Infinities stay infinite and a NaN stays a quiet NaN with the
/// top of its payload; a value beyond the single range becomes infinite
/// (also where rounding carries into the exponent); one below it becomes
/// subnormal or zero.
pub open spec fn single_magnitude(b: u64) -> int {
    let e = (b >> 52u64) & 0x7ff;
    let m = b & 0xF_FFFF_FFFF_FFFF;
    if e == 0x7ff {
        if m == 0 {
            0x7f80_0000
        } else {
            (0x7fc0_0000u64 | (m >> 29u64)) as int
        }
    } else if e >= 1151 {
        0x7f80_0000
    } else if e >= 897 {
        (e - 896) * 0x80_0000 + shift_round_even(m, 29)
    } else if e >= 872 {
        shift_round_even(m | 0x10_0000_0000_0000, (926 - e) as u64)
    } else {
        0
    }
}

/// The bit pattern of the single-precision value nearest to the double with
/// bit pattern `b` (round to nearest, ties to even): what converting a double
/// to a single gives.
pub open spec fn single_bits_of_double_bits(b: u64) -> u32 {
    (single_sign(b) + single_magnitude(b)) as u32
}

fn shift_round(m: u64, shift: u64) -> (r: u64)
    requires
        1 <= shift <= 63,
    ensures
        r == shift_round_even(m, shift),
        r <= (m >> shift) + 1,
{
    let q = m >> shift;
    assert((1u64 << shift) >= 1) by (bit_vector)
        requires
            1 <= shift <= 63,
    ;
    assert(m >> shift < 0x8000_0000_0000_0000) by (bit_vector)
        requires
            1 <= shift <= 63,
    ;
    let rest = m & ((1u64 << shift) - 1);
    let half = 1u64 << (shift - 1);
    if rest > half || (rest == half && q & 1 == 1) {
        q + 1
    } else {
        q
    }
}

/// Converts a double-precision bit pattern to the nearest single-precision one.
pub fn narrow_to_single_bits(b: u64) -> (r: u32)
    ensures
        r == single_bits_of_double_bits(b),
{
    let e = (b >> 52) & 0x7ff;
    let m = b & 0xF_FFFF_FFFF_FFFF;
    assert(m < 0x10_0000_0000_0000) by (bit_vector)
        requires
            m == b & 0xF_FFFF_FFFF_FFFF,
    ;
    assert(e <= 0x7ff) by (bit_vector)
        requires
            e == (b >> 52) & 0x7ff,
    ;
    assert(m >> 29 < 0x80_0000) by (bit_vector)
        requires
            m < 0x10_0000_0000_0000,
    ;
    let mag: u64 = if e == 0x7ff {
        if m == 0 {
            0x7f80_0000
        } else {
            assert((0x7fc0_0000u64 | (m >> 29)) < 0x8000_0000) by (bit_vector)
                requires
                    m < 0x10_0000_0000_0000,
            ;
            0x7fc0_0000u64 | (m >> 29)
        }
    } else if e >= 1151 {
        0x7f80_0000
    } else if e >= 897 {
        (e - 896) * 0x80_0000 + shift_round(m, 29)
    } else if e >= 872 {
        let full = m | 0x10_0000_0000_0000;
        assert(full < 0x20_0000_0000_0000) by (bit_vector)
            requires
                m < 0x10_0000_0000_0000,
                full == m | 0x10_0000_0000_0000,
        ;
        let shift = 926 - e;
        assert(full >> shift <= full >> 30) by (bit_vector)
            requires
                30 <= shift <= 54,
        ;
        assert(full >> 30 < 0x80_0000) by (bit_vector)
            requires
                full < 0x20_0000_0000_0000,
        ;
        shift_round(full, shift)
    } else {
        0
    };
    assert(mag < 0x8000_0000);
    let sign: u32 = if b >> 63 == 1 {
        0x8000_0000
    } else {
        0
    };
    sign + (mag as u32)
}

/// The position of the highest set bit of `n`, searching from bit `p` down;
/// 0 where none of bits `p` down to 1 is set.
pub open spec fn top_bit_from(n: u64, p: u64) -> u64
    decreases p,
{
    if p == 0 || n >> p != 0 {
        p
    } else {
        top_bit_from(n, (p - 1) as u64)
    }
}

/// The position of the highest set bit of a non-zero `n`.
pub open spec fn top_bit(n: u64) -> u64 {
    top_bit_from(n, 63)
}

fn find_top_bit(n: u64) -> (p: u64)
    requires
        n != 0,
    ensures
        p == top_bit(n),
        p <= 63,
        n >> p != 0,
        p == 63 || n >> ((p + 1) as u64) == 0,
{
    let mut p: u64 = 63;
    while n >> p == 0
        invariant
            p <= 63,
            n != 0,
            top_bit_from(n, 63) == top_bit_from(n, p),
            p == 63 || n >> ((p + 1) as u64) == 0,
        decreases p,
    {
        assert(p != 0) by (bit_vector)
            requires
                n != 0,
                n >> p == 0,
        ;
        p = p - 1;
    }
    p
}

/// The double-precision pattern of the value `m * 2^(q - 1023)` for a
/// non-zero `m` whose top bit is at position `p` (so that the biased exponent
/// is `q + p`), rounded to nearest, ties to even.
pub open spec fn double_from_scaled(m: u64, q: int) -> int {
    let p = top_bit(m);
    (q + p - 1) * 0x10_0000_0000_0000 + if p <= 52 {
        (m << ((52 - p) as u64)) as int
    } else {
        shift_round_even(m, (p - 52) as u64)
    }
}

/// The double-precision pattern of an unsigned integer: the nearest double,
/// ties to even (what converting the integer to a double gives).
pub open spec fn double_bits_of_u64(n: u64) -> u64 {
    if n == 0 {
        0
    } else {
        double_from_scaled(n, 1023) as u64
    }
}

/// The double-precision pattern of a single-precision pattern: the same
/// value, widened exactly. An infinity stays infinite and a NaN keeps its
/// payload.
pub open spec fn double_bits_of_single_bits(b: u32) -> u64 {
    let sign: int = if b >> 31u32 == 1 {
        0x8000_0000_0000_0000
    } else {
        0
    };
    let e = (b >> 23u32) & 0xff;
    let m = b & 0x7F_FFFF;
    let mag: int = if e == 0xff {
        0x7FF0_0000_0000_0000 + (m as int) * 0x2000_0000
    } else if e == 0 {
        if m == 0 {
            0
        } else {
            double_from_scaled(m as u64, 874)
        }
    } else {
        (e + 896) * 0x10_0000_0000_0000 + (m as int) * 0x2000_0000
    };
    (sign + mag) as u64
}

proof fn lemma_top_bit_from(n: u64, p: u64)
    requires
        n != 0,
        p <= 63,
    ensures
        top_bit_from(n, p) <= p,
        n >> top_bit_from(n, p) != 0,
        forall|q: u64| top_bit_from(n, p) < q <= p ==> #[trigger] (n >> q) == 0,
    decreases p,
{
    if p == 0 {
        assert(n >> 0u64 == n) by (bit_vector);
    } else if n >> p == 0 {
        lemma_top_bit_from(n, (p - 1) as u64);
    }
}

proof fn lemma_round_trip_normal(b: u32)
    requires
        1 <= (b >> 23u32) & 0xff <= 254,
    ensures
        single_bits_of_double_bits(double_bits_of_single_bits(b)) == b,
{
    let w = double_bits_of_single_bits(b);
    let e = (b >> 23u32) & 0xff;
    let m = b & 0x7F_FFFF;
    let sign: int = if b >> 31u32 == 1 {
        0x8000_0000_0000_0000
    } else {
        0
    };
    assert(m <= 0x7F_FFFF) by (bit_vector)
        requires
            m == b & 0x7F_FFFF,
    ;
    assert(w as int == sign + (e + 896) * 0x10_0000_0000_0000 + m * 0x2000_0000);
    assert((w >> 52u64) & 0x7ff == e + 896 && w & 0xF_FFFF_FFFF_FFFF == (m as u64) << 29u64 && (w >> 63u64
        == 1) == (b >> 31u32 == 1)) by (bit_vector)
        requires
            e == (b >> 23u32) & 0xff,
            m == b & 0x7F_FFFF,
            1 <= e <= 254,
            w as int == (if b >> 31u32 == 1 {
                0x8000_0000_0000_0000int
            } else {
                0int
            }) + (e + 896) * 0x10_0000_0000_0000 + m * 0x2000_0000,
    ;
    let mw = (m as u64) << 29u64;
    assert(shift_round_even(mw, 29) == m) by (bit_vector)
        requires
            mw == (m as u64) << 29u64,
            m <= 0x7F_FFFF,
    ;
    assert(single_magnitude(w) == e * 0x80_0000 + m);
    assert(single_sign(w) == if b >> 31u32 == 1 {
        0x8000_0000int
    } else {
        0int
    });
    assert(((if b >> 31u32 == 1 {
        0x8000_0000int
    } else {
        0int
    }) + e * 0x80_0000 + m) as u32 == b) by (bit_vector)
        requires
            e == (b >> 23u32) & 0xff,
            m == b & 0x7F_FFFF,
    ;
}

proof fn lemma_round_trip_subnormal(b: u32)
    requires
        (b >> 23u32) & 0xff == 0,
    ensures
        single_bits_of_double_bits(double_bits_of_single_bits(b)) == b,
{
    let w = double_bits_of_single_bits(b);
    let m = b & 0x7F_FFFF;
    assert(m <= 0x7F_FFFF) by (bit_vector)
        requires
            m == b & 0x7F_FFFF,
    ;
    let sign: int = if b >> 31u32 == 1 {
        0x8000_0000_0000_0000
    } else {
        0
    };
    if m == 0 {
        assert(w as int == sign);
        assert((w >> 52u64) & 0x7ff == 0 && (w >> 63u64 == 1) == (b >> 31u32 == 1)) by (bit_vector)
            requires
                w as int == (if b >> 31u32 == 1 {
                    0x8000_0000_0000_0000int
                } else {
                    0int
                }),
        ;
        assert(((if b >> 31u32 == 1 {
            0x8000_0000int
        } else {
            0int
        }) + 0) as u32 == b) by (bit_vector)
            requires
                (b >> 23u32) & 0xff == 0,
                b & 0x7F_FFFF == 0,
        ;
    } else {
        let m64 = m as u64;
        lemma_top_bit_from(m64, 63);
        let p = top_bit(m64);
        assert(p <= 22) by (bit_vector)
            requires
                m64 <= 0x7F_FFFF,
                m64 >> p != 0,
        ;
        assert(p == 63 || m64 >> ((p + 1) as u64) == 0);
        let top = m64 << ((52 - p) as u64);
        assert(0x10_0000_0000_0000 <= top < 0x20_0000_0000_0000 && top >> ((52 - p) as u64) == m64
            && top & (((1u64 << ((52 - p) as u64)) - 1) as u64) == 0) by (bit_vector)
            requires
                p <= 22,
                m64 >> p != 0,
                m64 >> ((p + 1) as u64) == 0,
                top == m64 << ((52 - p) as u64),
        ;
        assert(double_from_scaled(m64, 874) == (873 + p) * 0x10_0000_0000_0000 + top);
        assert(w as int == sign + (873 + p) * 0x10_0000_0000_0000 + top);
        assert((w >> 52u64) & 0x7ff == 874 + p && (w & 0xF_FFFF_FFFF_FFFF) | 0x10_0000_0000_0000 == top && (w
            >> 63u64 == 1) == (b >> 31u32 == 1)) by (bit_vector)
            requires
                p <= 22,
                0x10_0000_0000_0000 <= top < 0x20_0000_0000_0000,
                w as int == (if b >> 31u32 == 1 {
                    0x8000_0000_0000_0000int
                } else {
                    0int
                }) + (873 + p) * 0x10_0000_0000_0000 + top,
        ;
        let sh = (52 - p) as u64;
        assert(shift_round_even(top, sh) == m64) by (bit_vector)
            requires
                1 <= sh <= 63,
                top >> sh == m64,
                top & (((1u64 << sh) - 1) as u64) == 0,
        ;
        assert(single_magnitude(w) == m);
        assert(((if b >> 31u32 == 1 {
            0x8000_0000int
        } else {
            0int
        }) + m) as u32 == b) by (bit_vector)
            requires
                (b >> 23u32) & 0xff == 0,
                m == b & 0x7F_FFFF,
        ;
    }
}

/// Widening a finite single-precision value to double precision and
/// narrowing it back gives the same bits.
pub proof fn lemma_widen_then_narrow(b: u32)
    requires
        (b >> 23u32) & 0xff != 0xff,
    ensures
        single_bits_of_double_bits(double_bits_of_single_bits(b)) == b,
{
    if (b >> 23u32) & 0xff == 0 {
        lemma_round_trip_subnormal(b);
    } else {
        assert((b >> 23u32) & 0xff <= 0xff) by (bit_vector);
        lemma_round_trip_normal(b);
    }
}

/// The pattern of `m * 2^(q - 1023)`, as [`double_from_scaled`], for `q`
/// small enough that the result is finite.
fn scaled_to_double(m: u64, q: u64) -> (r: u64)
    requires
        m != 0,
        1 <= q <= 1023,
    ensures
        r == double_from_scaled(m, q as int),
        r < 0x7FF0_0000_0000_0000,
{
    let p = find_top_bit(m);
    let top: u64 = if p <= 52 {
        assert(m << ((52 - p) as u64) < 0x20_0000_0000_0000) by (bit_vector)
            requires
                p <= 52,
                p == 63 || m >> ((p + 1) as u64) == 0,
        ;
        m << (52 - p)
    } else {
        assert(m >> ((p - 52) as u64) < 0x20_0000_0000_0000) by (bit_vector)
            requires
                53 <= p <= 63,
                p == 63 || m >> ((p + 1) as u64) == 0,
        ;
        shift_round(m, p - 52)
    };
    (q + p - 1) * 0x10_0000_0000_0000 + top
}

/// Converts an unsigned integer to the double-precision pattern nearest to it.
pub fn u64_to_double_bits(n: u64) -> (r: u64)
    ensures
        r == double_bits_of_u64(n),
{
    if n == 0 {
        0
    } else {
        scaled_to_double(n, 1023)
    }
}

/// Widens a single-precision pattern to the double-precision one of the same value.
pub fn widen_to_double_bits(b: u32) -> (r: u64)
    ensures
        r == double_bits_of_single_bits(b),
{
    let e = (b >> 23) & 0xff;
    let m = b & 0x7F_FFFF;
    assert(m <= 0x7F_FFFF) by (bit_vector)
        requires
            m == b & 0x7F_FFFF,
    ;
    assert(e <= 0xff) by (bit_vector)
        requires
            e == (b >> 23) & 0xff,
    ;
    let mag: u64 = if e == 0xff {
        0x7FF0_0000_0000_0000 + (m as u64) * 0x2000_0000
    } else if e == 0 {
        if m == 0 {
            0
        } else {
            scaled_to_double(m as u64, 874)
        }
    } else {
        ((e as u64) + 896) * 0x10_0000_0000_0000 + (m as u64) * 0x2000_0000
    };
    let sign: u64 = if b >> 31 == 1 {
        0x8000_0000_0000_0000
    } else {
        0
    };
    sign + mag
}

} // verus!
