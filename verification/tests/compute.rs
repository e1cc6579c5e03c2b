use preemptive::compute::{fib, is_prime};
use preemptive::decimal::{push_decimal, push_signed_decimal, push_bytes};

#[test]
fn fib_first_terms() {
    let expected: [u32; 6] = [1, 1, 2, 3, 5, 8];
    for (n, want) in expected.iter().enumerate() {
        assert_eq!(fib(n as u32), *want);
    }
}

#[test]
fn fib_recurrence_and_last_fitting_term() {
    for n in 2u32..=46 {
        assert_eq!(fib(n), fib(n - 1) + fib(n - 2));
    }
    assert_eq!(fib(10), 89);
    assert_eq!(fib(46), 2971215073);
}

#[test]
fn is_prime_first_numbers() {
    let expected = [true, true, true, false, true, false];
    for (i, want) in expected.iter().enumerate() {
        assert_eq!(is_prime(i as u32 + 1), *want, "is_prime({})", i + 1);
    }
}

#[test]
fn is_prime_agrees_with_trial_division() {
    for n in 0u32..2000 {
        let naive = n == 1 || (n >= 2 && (2..n).all(|d| n % d != 0));
        assert_eq!(is_prime(n), naive, "is_prime({})", n);
    }
}

#[test]
fn is_prime_squares_and_large_values() {
    assert!(!is_prime(0));
    assert!(!is_prime(25));
    assert!(!is_prime(49));
    assert!(!is_prime(121));
    assert!(!is_prime(143));
    assert!(is_prime(97));
    assert!(is_prime(2147483647));
    assert!(!is_prime(2147483649));
    assert!(!is_prime(u32::MAX));
    assert!(!is_prime(65521 * 65519));
    assert!(is_prime(4294836197));
    assert!(!is_prime(4294836223));
}

#[test]
fn decimal_rendering() {
    let mut buf: Vec<u8> = Vec::new();
    push_decimal(&mut buf, 0);
    assert_eq!(buf, b"0".to_vec());
    let mut buf: Vec<u8> = b"x=".to_vec();
    push_decimal(&mut buf, 1234567890);
    assert_eq!(buf, b"x=1234567890".to_vec());
    let mut buf: Vec<u8> = Vec::new();
    push_decimal(&mut buf, u32::MAX);
    assert_eq!(buf, b"4294967295".to_vec());
}

#[test]
fn signed_decimal_rendering() {
    let mut buf: Vec<u8> = Vec::new();
    push_signed_decimal(&mut buf, -5);
    assert_eq!(buf, b"-5".to_vec());
    let mut buf: Vec<u8> = Vec::new();
    push_signed_decimal(&mut buf, i32::MIN);
    assert_eq!(buf, b"-2147483648".to_vec());
    let mut buf: Vec<u8> = Vec::new();
    push_signed_decimal(&mut buf, i32::MAX);
    assert_eq!(buf, b"2147483647".to_vec());
    let mut buf: Vec<u8> = Vec::new();
    push_bytes(&mut buf, b"ab");
    push_bytes(&mut buf, b"");
    assert_eq!(buf, b"ab".to_vec());
}

#[test]
fn decimal_reads_back() {
    for n in [0u32, 7, 10, 99, 100, 65535, 4000000000, u32::MAX] {
        let mut buf: Vec<u8> = Vec::new();
        push_decimal(&mut buf, n);
        assert!(buf.iter().all(|b| b.is_ascii_digit()));
        assert!(n == 0 || buf[0] != b'0');
        let text = String::from_utf8(buf).unwrap();
        assert_eq!(text.parse::<u32>().unwrap(), n);
    }
}
