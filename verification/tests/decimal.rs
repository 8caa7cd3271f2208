use typeshape::decimal::render_index;

#[test]
fn zero_is_a_single_digit() {
    assert_eq!(render_index(0), "0");
}

#[test]
fn single_digits() {
    assert_eq!(render_index(1), "1");
    assert_eq!(render_index(7), "7");
    assert_eq!(render_index(9), "9");
}

#[test]
fn ten_has_two_digits() {
    assert_eq!(render_index(10), "10");
}

#[test]
fn most_significant_digit_comes_first() {
    assert_eq!(render_index(12345), "12345");
    assert_eq!(render_index(9080706), "9080706");
}

#[test]
fn no_leading_zero() {
    assert_eq!(render_index(100), "100");
    assert_eq!(render_index(1000000), "1000000");
}

#[test]
fn largest_index() {
    assert_eq!(render_index(usize::MAX), usize::MAX.to_string());
}

#[test]
fn agrees_with_the_standard_rendering() {
    let mut n: usize = 0;
    while n < 2500 {
        assert_eq!(render_index(n), n.to_string());
        n += 1;
    }
}

#[test]
fn different_indices_have_different_texts() {
    let mut a: usize = 0;
    while a < 120 {
        let mut b: usize = a + 1;
        while b < 120 {
            assert_ne!(render_index(a), render_index(b));
            b += 1;
        }
        a += 1;
    }
}

#[test]
fn numeral_is_read_back() {
    assert_eq!(typeshape::decimal::parse_numeral("0"), Some(0));
    assert_eq!(typeshape::decimal::parse_numeral("4"), Some(4));
    assert_eq!(typeshape::decimal::parse_numeral("1024"), Some(1024));
}

#[test]
fn numeral_may_have_leading_zeros() {
    assert_eq!(typeshape::decimal::parse_numeral("007"), Some(7));
    assert_eq!(typeshape::decimal::parse_numeral("0000"), Some(0));
}

#[test]
fn empty_text_is_no_numeral() {
    assert_eq!(typeshape::decimal::parse_numeral(""), None);
}

#[test]
fn text_with_anything_but_digits_is_no_numeral() {
    assert_eq!(typeshape::decimal::parse_numeral("N"), None);
    assert_eq!(typeshape::decimal::parse_numeral("4usize"), None);
    assert_eq!(typeshape::decimal::parse_numeral(" 4"), None);
    assert_eq!(typeshape::decimal::parse_numeral("4 "), None);
    assert_eq!(typeshape::decimal::parse_numeral("-4"), None);
    assert_eq!(typeshape::decimal::parse_numeral("+4"), None);
    assert_eq!(typeshape::decimal::parse_numeral("1_000"), None);
    assert_eq!(typeshape::decimal::parse_numeral("0x10"), None);
    assert_eq!(typeshape::decimal::parse_numeral("٣"), None);
}

#[test]
fn largest_numeral_fits() {
    assert_eq!(typeshape::decimal::parse_numeral(&usize::MAX.to_string()), Some(usize::MAX));
}

#[test]
fn numeral_beyond_the_largest_does_not_fit() {
    let mut text = usize::MAX.to_string();
    text.push('0');
    assert_eq!(typeshape::decimal::parse_numeral(&text), None);
    let above = (usize::MAX as u128 + 1).to_string();
    assert_eq!(typeshape::decimal::parse_numeral(&above), None);
}

#[test]
fn reading_back_what_was_written_gives_the_number() {
    let mut n: usize = 0;
    while n < 3000 {
        assert_eq!(typeshape::decimal::parse_numeral(&render_index(n)), Some(n));
        n += 7;
    }
    assert_eq!(
        typeshape::decimal::parse_numeral(&render_index(usize::MAX - 1)),
        Some(usize::MAX - 1)
    );
}
