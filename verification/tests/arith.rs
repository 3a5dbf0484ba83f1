use qcow2::arith::div_ceil;
use qcow2::arith::div_rem;
use qcow2::arith::is_multiple_of;
use qcow2::arith::padding_to_multiple;
use qcow2::text::decimal;
use qcow2::text::hex;

#[test]
fn div_rem_gives_quotient_and_remainder() {
    assert_eq!(div_rem(17, 5), (3, 2));
    assert_eq!(div_rem(0, 7), (0, 0));
    assert_eq!(div_rem(u64::MAX, 1), (u64::MAX, 0));
    assert_eq!(div_rem(65536, 65536), (1, 0));
}

#[test]
fn div_ceil_rounds_up() {
    assert_eq!(div_ceil(0, 8), 0);
    assert_eq!(div_ceil(1, 8), 1);
    assert_eq!(div_ceil(8, 8), 1);
    assert_eq!(div_ceil(9, 8), 2);
    assert_eq!(div_ceil(u64::MAX, 2), 1 << 63);
    assert_eq!(div_ceil(u64::MAX, u64::MAX), 1);
    assert_eq!(div_ceil(200 * 1024 * 1024 + 1, 65536), 3201);
}

#[test]
fn div_ceil_is_the_least_multiplier() {
    for a in 0..200u64 {
        for b in 1..20u64 {
            let q = div_ceil(a, b);
            assert!(q * b >= a);
            assert!(q == 0 || (q - 1) * b < a);
        }
    }
}

#[test]
fn padding_fills_up_to_a_multiple() {
    assert_eq!(padding_to_multiple(0, 8), 0);
    assert_eq!(padding_to_multiple(1, 8), 7);
    assert_eq!(padding_to_multiple(5, 8), 3);
    assert_eq!(padding_to_multiple(8, 8), 0);
    assert_eq!(padding_to_multiple(48, 8), 0);
    assert_eq!(padding_to_multiple(49, 8), 7);
    for a in 0..100u64 {
        for b in 1..17u64 {
            let p = padding_to_multiple(a, b) as u64;
            assert!(p < b);
            assert_eq!((a + p) % b, 0);
        }
    }
}

#[test]
fn multiples_are_recognised() {
    assert!(is_multiple_of(0, 512));
    assert!(is_multiple_of(1024, 512));
    assert!(!is_multiple_of(1025, 512));
    assert!(is_multiple_of(7, 1));
    assert!(!is_multiple_of(511, 512));
}

#[test]
fn decimal_text_of_numbers() {
    assert_eq!(decimal(0), "0");
    assert_eq!(decimal(8), "8");
    assert_eq!(decimal(10), "10");
    assert_eq!(decimal(104), "104");
    assert_eq!(decimal(4294967295), "4294967295");
    assert_eq!(decimal(u64::MAX), "18446744073709551615");
}

#[test]
fn decimal_text_agrees_with_the_standard_library() {
    let mut n: u64 = 1;
    for _ in 0..63 {
        assert_eq!(decimal(n), format!("{}", n));
        assert_eq!(decimal(n - 1), format!("{}", n - 1));
        n *= 2;
    }
}

#[test]
fn hexadecimal_text_of_numbers() {
    assert_eq!(hex(0), "0x0");
    assert_eq!(hex(15), "0xf");
    assert_eq!(hex(16), "0x10");
    assert_eq!(hex(0x6803f857), "0x6803f857");
    assert_eq!(hex(u64::MAX), "0xffffffffffffffff");
    let mut n: u64 = 1;
    for _ in 0..63 {
        assert_eq!(hex(n), format!("{:#x}", n));
        assert_eq!(hex(n - 1), format!("{:#x}", n - 1));
        n *= 2;
    }
}
