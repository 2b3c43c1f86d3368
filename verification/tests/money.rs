use shop_backend::func::{is_maskable, mask_card_number};
use shop_backend::money::{apply_discount, parse_price, percent, share};
use shop_backend::text::{char_is_white_space, chars_of, trim, trim_bounds};

#[test]
fn prices_are_read_as_minor_units() {
    assert_eq!(parse_price("100.00"), Some(10000));
    assert_eq!(parse_price("1,234.50"), Some(123450));
    assert_eq!(parse_price("1 234,50"), Some(123450));
    assert_eq!(parse_price("50"), Some(50));
    assert_eq!(parse_price("007"), Some(7));
    assert_eq!(parse_price("0"), Some(0));
    assert_eq!(parse_price(" \t42\n"), Some(42));
    assert_eq!(parse_price("\u{a0}42\u{2003}"), Some(42));
}

#[test]
fn malformed_prices_are_rejected() {
    assert_eq!(parse_price(""), None);
    assert_eq!(parse_price(" , . "), None);
    assert_eq!(parse_price("12a"), None);
    assert_eq!(parse_price("-5"), None);
    assert_eq!(parse_price("+5"), None);
    assert_eq!(parse_price("1e3"), None);
    assert_eq!(parse_price("4\t2"), None);
    assert_eq!(parse_price("$10"), None);
    assert_eq!(parse_price("١٢"), None);
}

#[test]
fn prices_up_to_64_bits_fit() {
    assert_eq!(parse_price("18446744073709551615"), Some(u64::MAX));
    assert_eq!(parse_price("18,446,744,073,709,551,615"), Some(u64::MAX));
    assert_eq!(parse_price("18446744073709551616"), None);
    assert_eq!(parse_price("99999999999999999999999"), None);
    assert_eq!(parse_price("00000000000000000000000001"), Some(1));
}

#[test]
fn shares_round_toward_zero() {
    assert_eq!(share(10000, 1000), 1000);
    assert_eq!(share(999, 1000), 99);
    assert_eq!(share(0, 5000), 0);
    assert_eq!(share(u64::MAX, u32::MAX), (u64::MAX as u128) * (u32::MAX as u128) / 10_000);
    assert_eq!(percent(999, 1000), 99);
    assert_eq!(percent(-999, 1000), -99);
    assert_eq!(percent(-1, 9999), 0);
    assert_eq!(percent(i64::MIN, 10000), i64::MIN as i128);
    assert_eq!(percent(i64::MAX, 20000), 2 * (i64::MAX as i128));
}

#[test]
fn a_discount_never_leaves_a_negative_total() {
    assert_eq!(apply_discount(24500, 1000), (22050, 2450));
    assert_eq!(apply_discount(100, 10000), (0, 100));
    assert_eq!(apply_discount(100, 15000), (0, 150));
    assert_eq!(apply_discount(100, 0), (100, 0));
    assert_eq!(apply_discount(0, 5000), (0, 0));
    assert_eq!(apply_discount(-100, 1000), (0, -10));
    assert_eq!(apply_discount(-100, 20000), (100, -200));
}

#[test]
fn card_numbers_keep_their_last_four() {
    assert_eq!(mask_card_number("4000111122223333"), "************3333");
    assert_eq!(mask_card_number("12345"), "*2345");
    assert_eq!(mask_card_number("1234"), "1234");
    assert_eq!(mask_card_number("12"), "12");
    assert_eq!(mask_card_number(""), "");
    // one asterisk for each hidden byte, not for each hidden character
    assert_eq!(mask_card_number("é1234"), "**1234");
    assert_eq!(mask_card_number("12éé"), "**éé");
}

#[test]
fn a_split_character_cannot_be_masked() {
    assert!(is_maskable("4000111122223333"));
    assert!(is_maskable("éé"));
    assert!(is_maskable("12éé"));
    assert!(!is_maskable("1éé2"));
    assert!(!is_maskable("€€€"));
}

#[test]
fn trimming_removes_outer_whitespace_only() {
    assert_eq!(trim("  ann lee \t\n"), "ann lee");
    assert_eq!(trim("ann"), "ann");
    assert_eq!(trim(" \u{3000}\u{2028} "), "");
    assert_eq!(trim(""), "");
    assert_eq!(trim("\u{85}é x\u{1680}"), "é x");
    // a zero-width space is no whitespace
    assert_eq!(trim("\u{200b}a"), "\u{200b}a");
    assert_eq!(trim_bounds(&chars_of("  ab ")), (2, 4));
    assert_eq!(trim_bounds(&chars_of("   ")), (3, 3));
}

#[test]
fn whitespace_is_what_the_standard_library_says() {
    let mut c = 0u32;
    while c <= 0x3100 {
        if let Some(ch) = char::from_u32(c) {
            assert_eq!(char_is_white_space(ch), ch.is_whitespace(), "U+{:04X}", c);
        }
        c += 1;
    }
    assert_eq!(chars_of("aé€"), vec!['a', 'é', '€']);
}
