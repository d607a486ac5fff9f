use tinfo::digits::{decimal_digits, digit, digit_to_char, read_number, scan_digits};

fn chars(s: &str) -> Vec<char> {
    s.chars().collect()
}

#[test]
fn digits_are_the_ten_ascii_digits() {
    for c in "0123456789".chars() {
        assert!(digit(c));
    }
    for c in ['/', ':', 'a', ' ', '\u{663}', '\u{ff11}'] {
        assert!(!digit(c));
    }
}

#[test]
fn a_run_of_digits_ends_at_the_first_other_character() {
    let s = chars("123 45x");
    assert_eq!(scan_digits(&s, 0), 3);
    assert_eq!(scan_digits(&s, 1), 3);
    assert_eq!(scan_digits(&s, 3), 3);
    assert_eq!(scan_digits(&s, 4), 6);
    assert_eq!(scan_digits(&s, 7), 7);
    assert_eq!(scan_digits(&chars("42"), 0), 2);
}

#[test]
fn digits_are_read_as_a_decimal_number() {
    let s = chars("x0012345y");
    assert_eq!(read_number(&s, 1, 8), Some(12345));
    assert_eq!(read_number(&s, 3, 4), Some(1));
    assert_eq!(read_number(&s, 1, 1), Some(0));
}

#[test]
fn a_number_that_does_not_fit_is_not_read() {
    let max = usize::MAX.to_string();
    let s = chars(&max);
    assert_eq!(read_number(&s, 0, s.len()), Some(usize::MAX));
    let mut more = max.clone();
    more.push('0');
    let s = chars(&more);
    assert_eq!(read_number(&s, 0, s.len()), None);
    let next = (usize::MAX as u128 + 1).to_string();
    let s = chars(&next);
    assert_eq!(read_number(&s, 0, s.len()), None);
}

#[test]
fn a_number_is_written_in_decimal() {
    assert_eq!(decimal_digits(0), chars("0"));
    assert_eq!(decimal_digits(7), chars("7"));
    assert_eq!(decimal_digits(10), chars("10"));
    assert_eq!(decimal_digits(4096), chars("4096"));
    assert_eq!(decimal_digits(usize::MAX), chars(&usize::MAX.to_string()));
}

#[test]
fn what_is_written_reads_back() {
    for n in [0usize, 1, 9, 10, 99, 100, 12345, usize::MAX] {
        let written = decimal_digits(n);
        assert_eq!(read_number(&written, 0, written.len()), Some(n));
        assert_eq!(scan_digits(&written, 0), written.len());
    }
}

#[test]
fn each_digit_has_its_character() {
    let all: Vec<char> = (0..10).map(digit_to_char).collect();
    assert_eq!(all, chars("0123456789"));
}
