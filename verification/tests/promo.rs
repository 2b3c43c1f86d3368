use shop_backend::clock::Timestamp;
use shop_backend::controllers::promocodes_controller::{validate_promo_code, validate_promo_code_at};
use shop_backend::error::ErrorKind;
use shop_backend::stores::promo_codes_store::{
    check_window, decide_window, PromoCode, PromoCodesStore,
};

fn promo(code: &str, discount: u32, from: &str, to: &str) -> PromoCode {
    PromoCode {
        code: String::from(code),
        discount,
        available_at: String::from(from),
        expired_at: String::from(to),
    }
}

fn codes() -> Vec<PromoCode> {
    vec![
        promo("SAVE10", 1000, "2024-01-01T00:00:00Z", "2024-12-31T23:59:59Z"),
        promo("HALF", 5000, "2024-03-01T00:00:00+02:00", "2024-03-31T00:00:00+02:00"),
        promo("SAVE10", 9000, "2024-01-01T00:00:00Z", "2024-12-31T23:59:59Z"),
        promo("ODD", 1250, "2024-01-01T00:00:00.5Z", "2024-01-01T00:00:00.5Z"),
    ]
}

fn store() -> PromoCodesStore {
    PromoCodesStore::new(String::from("promocodes.json"))
}

fn at(text: &str) -> Timestamp {
    Timestamp::parse(text).unwrap()
}

#[test]
fn instants_are_read_from_rfc3339() {
    assert_eq!(at("1970-01-01T00:00:00Z"), Timestamp { secs: 0, nanos: 0 });
    assert_eq!(at("2015-05-15T00:00:00Z"), Timestamp { secs: 1431648000, nanos: 0 });
    assert_eq!(at("2015-05-15 02:00:00+02:00"), Timestamp { secs: 1431648000, nanos: 0 });
    assert_eq!(at("1969-12-31T23:59:59.25Z"), Timestamp { secs: -1, nanos: 250_000_000 });
    assert_eq!(Timestamp::parse("2015-05-15"), None);
    assert_eq!(Timestamp::parse("soon"), None);
    assert_eq!(Timestamp::parse(""), None);
}

#[test]
fn instants_are_ordered() {
    let a = Timestamp { secs: 5, nanos: 999_999_999 };
    let b = Timestamp { secs: 6, nanos: 0 };
    assert!(a.before(&b));
    assert!(!b.before(&a));
    assert!(!a.before(&a));
    assert!(Timestamp { secs: 5, nanos: 1 }.before(&a));
    assert!(Timestamp { secs: -7, nanos: 5 }.before(&Timestamp { secs: -6, nanos: 0 }));
    let now = Timestamp::now();
    assert!(now.nanos < 1_000_000_000);
    assert!(at("2020-01-01T00:00:00Z").before(&now));
    assert!(now.before(&at("9000-01-01T00:00:00Z")));
}

#[test]
fn the_window_includes_both_bounds() {
    let p = &codes()[0];
    assert_eq!(check_window(p, at("2024-01-01T00:00:00Z")), Ok(()));
    assert_eq!(check_window(p, at("2024-12-31T23:59:59Z")), Ok(()));
    assert_eq!(
        check_window(p, at("2023-12-31T23:59:59.999999999Z")),
        Err(ErrorKind::PromoCodeNotYetAvailable)
    );
    assert_eq!(
        check_window(p, at("2024-12-31T23:59:59.000000001Z")),
        Err(ErrorKind::PromoCodeExpired)
    );
    let odd = &codes()[3];
    assert_eq!(check_window(odd, at("2024-01-01T00:00:00.5Z")), Ok(()));
    assert_eq!(
        check_window(odd, at("2024-01-01T00:00:00.4Z")),
        Err(ErrorKind::PromoCodeNotYetAvailable)
    );
}

#[test]
fn the_window_is_decided_from_its_bounds() {
    let t = |secs: i64, nanos: u32| Timestamp { secs, nanos };
    let open = Some(t(100, 5));
    let close = Some(t(200, 5));
    assert_eq!(decide_window(open, close, t(100, 5)), Ok(()));
    assert_eq!(decide_window(open, close, t(150, 0)), Ok(()));
    assert_eq!(decide_window(open, close, t(200, 5)), Ok(()));
    assert_eq!(decide_window(open, close, t(100, 4)), Err(ErrorKind::PromoCodeNotYetAvailable));
    assert_eq!(decide_window(open, close, t(-1, 0)), Err(ErrorKind::PromoCodeNotYetAvailable));
    assert_eq!(decide_window(open, close, t(200, 6)), Err(ErrorKind::PromoCodeExpired));
    assert_eq!(decide_window(open, close, t(201, 0)), Err(ErrorKind::PromoCodeExpired));
    // a window that closes before it opens is not yet open until it opens, expired after
    assert_eq!(decide_window(close, open, t(150, 0)), Err(ErrorKind::PromoCodeNotYetAvailable));
    assert_eq!(decide_window(close, open, t(300, 0)), Err(ErrorKind::PromoCodeExpired));
    assert_eq!(decide_window(None, close, t(150, 0)), Err(ErrorKind::PromoCodeWindowInvalid));
    assert_eq!(decide_window(open, None, t(150, 0)), Err(ErrorKind::PromoCodeWindowInvalid));
    assert_eq!(decide_window(None, None, t(150, 0)), Err(ErrorKind::PromoCodeWindowInvalid));
}

#[test]
fn offsets_are_taken_into_account() {
    let half = &codes()[1];
    assert_eq!(check_window(half, at("2024-02-29T22:00:00Z")), Ok(()));
    assert_eq!(
        check_window(half, at("2024-02-29T21:59:59Z")),
        Err(ErrorKind::PromoCodeNotYetAvailable)
    );
}

#[test]
fn malformed_windows_are_refused() {
    let bad_start = promo("X", 1, "01/01/2024", "2024-12-31T23:59:59Z");
    let bad_end = promo("X", 1, "2024-01-01T00:00:00Z", "");
    let now = at("2024-06-01T00:00:00Z");
    assert_eq!(check_window(&bad_start, now), Err(ErrorKind::PromoCodeWindowInvalid));
    assert_eq!(check_window(&bad_end, now), Err(ErrorKind::PromoCodeWindowInvalid));
    // also where the instant is outside what can be read of the window
    assert_eq!(
        check_window(&bad_end, at("2000-01-01T00:00:00Z")),
        Err(ErrorKind::PromoCodeWindowInvalid)
    );
}

#[test]
fn lookup_finds_the_first_code() {
    let s = store();
    assert_eq!(s.get_promo_code(&codes(), "SAVE10").unwrap().discount, 1000);
    assert_eq!(s.get_promo_code(&codes(), "HALF").unwrap().available_at, "2024-03-01T00:00:00+02:00");
    assert_eq!(s.get_promo_code(&codes(), "save10").err(), Some(ErrorKind::PromoCodeNotFound));
    assert_eq!(s.get_promo_code(&Vec::new(), "SAVE10").err(), Some(ErrorKind::PromoCodeNotFound));
    assert_eq!(s.get_promo_codes(Vec::new()).err(), Some(ErrorKind::NoPromoCodesFound));
    assert_eq!(s.get_promo_codes(codes()).unwrap().len(), 4);
    assert_eq!(s.promocodes_file_path, "promocodes.json");
    assert_eq!(s.clone().promocodes_file_path, "promocodes.json");
}

#[test]
fn applying_a_code_takes_its_share() {
    let s = store();
    let now = at("2024-06-01T00:00:00Z");
    assert_eq!(s.apply_promo_code_at(&codes(), "SAVE10", 24500, now), Ok((22050, 2450)));
    assert_eq!(s.apply_promo_code_at(&codes(), "ODD", 999, at("2024-01-01T00:00:00.5Z")), Ok((875, 124)));
    assert_eq!(s.apply_promo_code_at(&codes(), "SAVE10", 0, now), Ok((0, 0)));
}

#[test]
fn outside_the_window_nothing_is_applied() {
    let s = store();
    assert_eq!(
        s.apply_promo_code_at(&codes(), "SAVE10", 24500, at("2023-06-01T00:00:00Z")),
        Err(ErrorKind::PromoCodeNotYetAvailable)
    );
    assert_eq!(
        s.apply_promo_code_at(&codes(), "SAVE10", 24500, at("2025-06-01T00:00:00Z")),
        Err(ErrorKind::PromoCodeExpired)
    );
    assert_eq!(
        s.apply_promo_code_at(&codes(), "NONE", 24500, at("2024-06-01T00:00:00Z")),
        Err(ErrorKind::PromoCodeNotFound)
    );
    assert_eq!(
        s.apply_promo_code_at(&Vec::new(), "SAVE10", 24500, at("2024-06-01T00:00:00Z")),
        Err(ErrorKind::PromoCodeNotFound)
    );
    assert_eq!(s.apply_promo_code(&Vec::new(), "SAVE10", 24500), Err(ErrorKind::PromoCodeNotFound));
}

#[test]
fn applying_by_the_clock() {
    let s = store();
    let list = vec![
        promo("PAST", 1000, "2000-01-01T00:00:00Z", "2001-01-01T00:00:00Z"),
        promo("OPEN", 1000, "2000-01-01T00:00:00Z", "9000-01-01T00:00:00Z"),
        promo("FUTURE", 1000, "8000-01-01T00:00:00Z", "9000-01-01T00:00:00Z"),
    ];
    assert_eq!(s.apply_promo_code(&list, "PAST", 100), Err(ErrorKind::PromoCodeExpired));
    assert_eq!(s.apply_promo_code(&list, "OPEN", 100), Ok((90, 10)));
    assert_eq!(s.apply_promo_code(&list, "FUTURE", 100), Err(ErrorKind::PromoCodeNotYetAvailable));
    assert_eq!(validate_promo_code(&Some(list), "OPEN"), Ok(1000));
}

#[test]
fn validation_answers_with_the_discount() {
    let list = Some(codes());
    let now = at("2024-03-15T00:00:00Z");
    assert_eq!(validate_promo_code_at(&list, "HALF", now), Ok(5000));
    assert_eq!(validate_promo_code_at(&list, "SAVE10", now), Ok(1000));
    assert_eq!(validate_promo_code_at(&list, "NONE", now), Err(ErrorKind::PromoCodeNotFound));
    assert_eq!(validate_promo_code_at(&None, "HALF", now), Err(ErrorKind::PromoCodesUnavailable));
    // an empty list is no error of its own here
    assert_eq!(
        validate_promo_code_at(&Some(Vec::new()), "HALF", now),
        Err(ErrorKind::PromoCodeNotFound)
    );
    assert_eq!(
        validate_promo_code_at(&list, "HALF", at("2024-04-15T00:00:00Z")),
        Err(ErrorKind::PromoCodeExpired)
    );
    assert_eq!(
        validate_promo_code_at(&list, "HALF", at("2024-02-15T00:00:00Z")),
        Err(ErrorKind::PromoCodeNotYetAvailable)
    );
}
