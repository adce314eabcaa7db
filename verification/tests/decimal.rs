use pathtracer::decimal::push_decimal;

fn numeral(n: u64) -> Vec<u8> {
    let mut buf = Vec::new();
    push_decimal(&mut buf, n);
    buf
}

#[test]
fn zero_is_a_single_digit() {
    assert_eq!(numeral(0), b"0".to_vec());
}

#[test]
fn single_digits() {
    assert_eq!(numeral(7), b"7".to_vec());
    assert_eq!(numeral(9), b"9".to_vec());
}

#[test]
fn tens_keep_their_zero() {
    assert_eq!(numeral(10), b"10".to_vec());
    assert_eq!(numeral(100), b"100".to_vec());
    assert_eq!(numeral(1080), b"1080".to_vec());
}

#[test]
fn channel_maximum() {
    assert_eq!(numeral(255), b"255".to_vec());
}

#[test]
fn largest_number() {
    assert_eq!(numeral(u64::MAX), b"18446744073709551615".to_vec());
}

#[test]
fn numeral_is_appended_to_what_is_there() {
    let mut buf = b"P3\n".to_vec();
    push_decimal(&mut buf, 1920);
    assert_eq!(buf, b"P3\n1920".to_vec());
}

#[test]
fn numerals_agree_with_the_formatter() {
    let mut n: u64 = 1;
    for _ in 0..64 {
        for probe in [n - 1, n, n + 1, n / 3, n.wrapping_mul(7)] {
            assert_eq!(numeral(probe), format!("{}", probe).into_bytes());
        }
        n = n.wrapping_mul(2);
    }
}

#[test]
fn reading_a_numeral_back_gives_the_number() {
    for n in [0u64, 5, 42, 255, 256, 65535, 4294967296, u64::MAX] {
        let text = numeral(n);
        let mut value: u64 = 0;
        for &byte in &text {
            assert!((b'0'..=b'9').contains(&byte));
            value = value * 10 + u64::from(byte - b'0');
        }
        assert_eq!(value, n);
        assert!(text[0] != b'0' || n == 0);
    }
}
