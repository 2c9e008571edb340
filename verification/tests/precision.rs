use muse::precision::{narrow_to_single_bits, u64_to_double_bits, widen_to_double_bits};

fn narrowed(x: f64) -> u32 {
    narrow_to_single_bits(x.to_bits())
}

#[test]
fn narrowing_matches_the_cast_on_common_values() {
    let values = [
        0.0, -0.0, 0.5, 0.8, 1.0, -1.0, 0.1, 3.141592653589793, 1e-3, 123456.789, -2.5e10,
        f64::MAX, f64::MIN_POSITIVE, 1e-40, 1e-45, 7e-46, 1.5e-45, 3.4028235e38, 3.4028236e38,
        f64::INFINITY, f64::NEG_INFINITY,
    ];
    for x in values {
        assert_eq!(narrowed(x), (x as f32).to_bits(), "value {x}");
    }
}

#[test]
fn narrowing_exact_values() {
    assert_eq!(narrowed(0.8), 0x3F4C_CCCD);
    assert_eq!(narrowed(0.5), 0x3F00_0000);
    assert_eq!(narrowed(1.0), 0x3F80_0000);
    assert_eq!(narrowed(-0.0), 0x8000_0000);
    assert_eq!(narrowed(1e300), 0x7F80_0000);
    assert_eq!(narrowed(1e-300), 0);
}

#[test]
fn narrowing_rounds_ties_to_even() {
    // 1 + 2^-24 lies halfway between 1 and the next single; it rounds to 1.
    assert_eq!(narrowed(1.0 + 2f64.powi(-24)), 0x3F80_0000);
    // 1 + 3 * 2^-24 lies halfway between two singles; it rounds to the even one.
    assert_eq!(narrowed(1.0 + 3.0 * 2f64.powi(-24)), 0x3F80_0002);
    // The largest single plus half a step rounds up to infinity.
    assert_eq!(narrowed(3.4028235677973366e38), 0x7F80_0000);
}

#[test]
fn narrowing_matches_the_cast_on_a_sweep() {
    let mut b: u64 = 0x0123_4567_89AB_CDEF;
    for _ in 0..200_000 {
        b = b.wrapping_mul(6364136223846793005).wrapping_add(1442695040888963407);
        let x = f64::from_bits(b);
        if x.is_nan() {
            continue;
        }
        assert_eq!(narrow_to_single_bits(b), (x as f32).to_bits(), "bits {b:#x}");
    }
    for e in 850u64..=1160 {
        for m in [0u64, 1, 0x1000_0000, 0x1000_0001, 0x2000_0000, 0x3000_0000, 0xF_FFFF_FFFF_FFFF] {
            let b = (e << 52) | m;
            let x = f64::from_bits(b);
            assert_eq!(narrow_to_single_bits(b), (x as f32).to_bits(), "bits {b:#x}");
        }
    }
}

#[test]
fn widening_matches_the_cast() {
    let mut b: u32 = 0x1234_5678;
    for _ in 0..200_000 {
        b = b.wrapping_mul(1664525).wrapping_add(1013904223);
        let x = f32::from_bits(b);
        if x.is_nan() {
            continue;
        }
        assert_eq!(widen_to_double_bits(b), (x as f64).to_bits(), "bits {b:#x}");
    }
    for b in [0u32, 1, 2, 3, 0x7F_FFFF, 0x80_0000, 0x8000_0001, 0x3F80_0000, 0x7F7F_FFFF, 0x7F80_0000, 0xFF80_0000] {
        assert_eq!(widen_to_double_bits(b), (f32::from_bits(b) as f64).to_bits(), "bits {b:#x}");
    }
}

#[test]
fn widening_then_narrowing_gives_back_finite_singles() {
    let mut b: u32 = 0x0BAD_5EED;
    for _ in 0..200_000 {
        b = b.wrapping_mul(1664525).wrapping_add(1013904223);
        if f32::from_bits(b).is_nan() {
            continue;
        }
        assert_eq!(narrow_to_single_bits(widen_to_double_bits(b)), b);
    }
}

#[test]
fn integers_to_doubles_match_the_cast() {
    let mut n: u64 = 0x0123_4567_89AB_CDEF;
    for _ in 0..200_000 {
        n = n.wrapping_mul(6364136223846793005).wrapping_add(1442695040888963407);
        let k = n >> (n % 64);
        assert_eq!(u64_to_double_bits(k), (k as f64).to_bits(), "n {k}");
    }
    for k in [0u64, 1, 2, 3, 7, 1 << 52, (1 << 53) + 1, (1 << 53) + 3, u64::MAX, u64::MAX - 1024, 18446744073709549568] {
        assert_eq!(u64_to_double_bits(k), (k as f64).to_bits(), "n {k}");
    }
}
