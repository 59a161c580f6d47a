use divans::probability::numeric::{
    compute_divisor, compute_divisor8, fast_divide_16bit_by_8bit, fast_divide_30bit_by_16bit,
    k16bit_length, lookup_divisor, lookup_divisor8,
};

#[test]
fn bit_length_of_denominators() {
    assert_eq!(k16bit_length(0), 0);
    assert_eq!(k16bit_length(1), 1);
    assert_eq!(k16bit_length(2), 2);
    assert_eq!(k16bit_length(255), 8);
    assert_eq!(k16bit_length(256), 9);
    assert_eq!(k16bit_length(65535), 16);
}

#[test]
fn divisor_of_small_denominators() {
    // d = 1: bit length 1, ((2 - 1) << 31) / 1 + 1
    assert_eq!(compute_divisor(1), ((1i64 << 31) + 1, 0));
    // d = 3: bit length 2, ((4 - 3) << 31) / 3 + 1
    assert_eq!(compute_divisor(3), ((1i64 << 31) / 3 + 1, 1));
    // d = 7: bit length 3, ((8 - 7) << 31) / 7 + 1
    assert_eq!(compute_divisor(7), (306783379, 2));
    assert_eq!(compute_divisor(65535), (32769, 15));
}

#[test]
fn lookup_reads_the_bits_as_unsigned() {
    assert_eq!(lookup_divisor(7), compute_divisor(7));
    assert_eq!(lookup_divisor(-1), compute_divisor(65535));
    assert_eq!(lookup_divisor(i16::MIN), compute_divisor(32768));
}

#[test]
fn wide_division_is_exact() {
    let numerators: [i32; 9] = [0, 1, 2, 99, 100, 65535, 65536, (1 << 30) - 2, (1 << 30) - 1];
    let mut d: u32 = 1;
    while d < 65536 {
        let pair = compute_divisor(d as u16);
        for n in numerators.iter() {
            assert_eq!(fast_divide_30bit_by_16bit(*n, pair), *n / d as i32, "{} / {}", n, d);
        }
        d += 1;
    }
}

#[test]
fn wide_division_around_multiples() {
    for d in [1u16, 2, 3, 5, 7, 255, 256, 257, 32767, 32768, 65535] {
        let pair = compute_divisor(d);
        let mut k: i64 = 0;
        while k * (d as i64) < (1 << 30) {
            for delta in [-1i64, 0, 1] {
                let n = k * d as i64 + delta;
                if n >= 0 && n < (1 << 30) {
                    assert_eq!(fast_divide_30bit_by_16bit(n as i32, pair) as i64, n / d as i64);
                }
            }
            k = k * 3 + 1;
        }
    }
}

#[test]
fn narrow_division_is_exact() {
    for d in 1u16..256 {
        let pair = lookup_divisor8(d as u8);
        assert_eq!(pair, compute_divisor8(d as u8));
        for n in 0u32..65536 {
            assert_eq!(fast_divide_16bit_by_8bit(n as u16, pair), (n / d as u32) as u16);
        }
    }
}
