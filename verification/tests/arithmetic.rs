use crosslink::binary64::{add_i16, nearest_int, nearest_quotient, STUCK};
use crosslink::input::capture::seamless::map_y;
use crosslink::numeric::{push_be, read_be, wrap_i16, wrap_i32, wrap_u16};
use crosslink::text::{push_decimal, push_hex2, push_hex4, push_signed};

#[test]
fn nearest_int_agrees_with_double_precision() {
    let mut n: u128 = 1;
    for step in 0..120u32 {
        for d in [0u128, 1, 2, 3, 511, 512, 513] {
            for m in [n.saturating_sub(d), n + d, n + n / 3 + d] {
                if m <= u128::MAX / 4 {
                    assert_eq!(nearest_int(m), m as f64 as u128, "{} at step {}", m, step);
                }
            }
        }
        n = n * 2;
    }
}

#[test]
fn nearest_quotient_agrees_with_double_precision() {
    let tops = [0u128, 1, 2, 3, 10, 1079, 1 << 31, (1 << 53) + 1, (1 << 62) + 12345, 1 << 64];
    let bottoms = [1u128, 2, 3, 7, 900, 1080, 65535, u32::MAX as u128];
    for a in tops {
        for b in bottoms {
            let q = nearest_quotient(nearest_int(a), b);
            let exact = a as f64 / b as f64;
            assert_eq!(q.num as f64 / q.den as f64, exact, "{} / {}", a, b);
            assert_eq!(q.num as f64, exact * q.den as f64, "{} / {}", a, b);
        }
    }
}

#[test]
fn map_y_agrees_with_double_precision() {
    let heights = [1u32, 2, 720, 900, 1080, 1117, 1440, 2160, 65537, 1 << 31, u32::MAX];
    let values = [
        i64::MIN,
        -(1 << 53) - 1,
        -1080,
        -39,
        -1,
        0,
        1,
        39,
        540,
        1079,
        123_456_789,
        (1 << 53) + 1,
        (1 << 62) + 7,
        i64::MAX,
    ];
    for h in heights {
        for m in heights {
            for y in values {
                let expected = ((y as f64 / h as f64) * m as f64) as i64;
                assert_eq!(map_y(y, h, m), expected, "{} {} {}", y, h, m);
            }
            for y in -300..300 {
                let expected = ((y as f64 / h as f64) * m as f64) as i64;
                assert_eq!(map_y(y, h, m), expected, "{} {} {}", y, h, m);
            }
        }
    }
}

#[test]
fn heights_keep_their_proportion() {
    assert_eq!(map_y(540, 1080, 900), 450);
    assert_eq!(map_y(-540, 1080, 900), -450);
    assert_eq!(map_y(1079, 1080, 900), 899);
    assert_eq!(map_y(77, 0, 900), 77);
    assert_eq!(map_y(77, 1080, 0), 77);
    for y in 0..1080i64 {
        let exact = y * 1117 / 1080;
        let r = map_y(y, 1080, 1117);
        assert!(exact - 1 <= r && r <= exact);
    }
}

#[test]
fn sums_agree_with_double_precision() {
    for a in [0i128, 5, -5, 1 << 52, 1 << 53, (1 << 53) + 2, -(1 << 53), 1 << 60, STUCK, -STUCK] {
        for b in [0i16, 1, -1, 3, 24, i16::MAX, i16::MIN] {
            assert_eq!(add_i16(a, b), (a as f64 + b as f64) as i128, "{} + {}", a, b);
        }
    }
    assert_eq!(add_i16(STUCK, i16::MAX), STUCK);
    assert_eq!(add_i16(-STUCK, i16::MIN), -STUCK);
    assert_eq!(add_i16(1000, -24), 976);
}

#[test]
fn wrapping_keeps_the_low_bits() {
    for n in [0i64, 1, -1, 32767, 32768, -32768, -32769, 65536, 70000, i64::MAX, i64::MIN] {
        assert_eq!(wrap_i16(n), n as i16);
        assert_eq!(wrap_u16(n), n as u16);
    }
    for n in [0u32, 1, 0x7fff_ffff, 0x8000_0000, u32::MAX] {
        assert_eq!(wrap_i32(n), n as i32);
    }
}

#[test]
fn big_endian_bytes_round_trip() {
    for n in [0u64, 1, 255, 256, 0x0102_0304_0506_0708, u64::MAX] {
        let mut v = vec![9u8];
        push_be(&mut v, n, 8);
        assert_eq!(v[1..], n.to_be_bytes());
        assert_eq!(read_be(&v[1..]), n);
    }
    let mut low = Vec::new();
    push_be(&mut low, 0x1_0203_0405, 4);
    assert_eq!(low, vec![2, 3, 4, 5]);
    assert_eq!(read_be(&[]), 0);
}

#[test]
fn numbers_as_text() {
    for n in [0u128, 7, 10, 4242, u64::MAX as u128, u128::MAX] {
        let mut s = String::from("n=");
        push_decimal(&mut s, n);
        assert_eq!(s, format!("n={}", n));
    }
    for n in [0i128, -1, 35, -4096, i128::MIN, i128::MAX] {
        let mut s = String::new();
        push_signed(&mut s, n);
        assert_eq!(s, format!("{}", n));
    }
    for b in 0..=255u8 {
        let mut s = String::new();
        push_hex2(&mut s, b);
        assert_eq!(s, format!("{:02X}", b));
    }
    for n in [0u16, 0x4, 0xAB, 0x1234, 0xFFFF] {
        let mut s = String::new();
        push_hex4(&mut s, n);
        assert_eq!(s, format!("{:04X}", n));
    }
}
