use midi_router::text::push_decimal;
use midi_router::text::push_two_digits;
use midi_router::text::stamped;

fn decimal(n: u64) -> String {
    let mut out = String::new();
    push_decimal(&mut out, n);
    out
}

fn two_digits(n: u64) -> String {
    let mut out = String::new();
    push_two_digits(&mut out, n);
    out
}

#[test]
fn push_decimal_exact_values() {
    assert_eq!(decimal(0), "0");
    assert_eq!(decimal(7), "7");
    assert_eq!(decimal(10), "10");
    assert_eq!(decimal(109), "109");
    assert_eq!(decimal(5000), "5000");
    assert_eq!(decimal(u64::MAX), "18446744073709551615");
}

#[test]
fn push_decimal_appends() {
    let mut out = String::from("n = ");
    push_decimal(&mut out, 42);
    push_decimal(&mut out, 0);
    assert_eq!(out, "n = 420");
}

#[test]
fn push_decimal_as_the_format_macro_does() {
    let mut n: u64 = 1;
    for _ in 0..64 {
        assert_eq!(decimal(n), format!("{}", n));
        assert_eq!(decimal(n - 1), format!("{}", n - 1));
        n = n.wrapping_mul(2);
    }
    for n in 0..2000u64 {
        assert_eq!(decimal(n), n.to_string());
    }
}

#[test]
fn push_two_digits_exact_values() {
    assert_eq!(two_digits(0), "00");
    assert_eq!(two_digits(1), "01");
    assert_eq!(two_digits(9), "09");
    assert_eq!(two_digits(10), "10");
    assert_eq!(two_digits(16), "16");
    assert_eq!(two_digits(99), "99");
    assert_eq!(two_digits(100), "100");
}

#[test]
fn push_two_digits_as_the_format_macro_does() {
    for n in 0..300u64 {
        assert_eq!(two_digits(n), format!("{:0>2}", n));
    }
}

#[test]
fn stamped_puts_the_stamp_in_front() {
    assert_eq!(stamped(5, "abc"), "5: abc\n");
    assert_eq!(stamped(0, ""), "0: \n");
    assert_eq!(stamped(1234567, "two\nlines"), "1234567: two\nlines\n");
}
