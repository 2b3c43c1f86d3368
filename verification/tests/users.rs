use shop_backend::clock::Timestamp;
use shop_backend::controllers::auth_controller::{
    check_sign_up, logout, new_user, sign_in, sign_in_at, sign_up, SignInData, SignUpData,
};
use shop_backend::controllers::users_controller::{
    add_credit_card, add_credit_card_with, apply_full_update, apply_partial_update,
    delete_credit_card, get_user, profile, signed_in_user, update_profile_full,
    update_profile_partial, CreditCardInput, MyData,
};
use shop_backend::error::ErrorKind;
use shop_backend::models::user::{CreditCard, FullProfileUpdate, PartialProfileUpdate, User};
use shop_backend::password::{hash_password, verify_password};
use shop_backend::stores::user_store::UserStore;

fn card(id: u128, number: &str, is_primary: bool) -> CreditCard {
    CreditCard {
        id,
        cardholder_name: String::from("Ann Lee"),
        card_number: String::from(number),
        expiration_date: String::from("12/30"),
        is_primary,
    }
}

fn user(id: u128, name: &str, cards: Option<Vec<CreditCard>>) -> User {
    User {
        id,
        username: String::from(name),
        login: format!("{}-login", name),
        email: format!("{}@example.com", name),
        password_hash: String::from("not a hash"),
        phone_number: Some(String::from("555")),
        date_of_birth: Some(String::from("2000-01-01")),
        avatar_url: None,
        registration_date: Timestamp { secs: 100, nanos: 5 },
        last_login_date: None,
        country: None,
        region: None,
        city: Some(String::from("Town")),
        address: None,
        zip_code: None,
        credit_cards: cards,
    }
}

fn input(number: &str, is_primary: bool) -> CreditCardInput {
    CreditCardInput {
        cardholder_name: String::from("Ann Lee"),
        card_number: String::from(number),
        expiration_date: String::from("01/31"),
        is_primary,
    }
}

fn sign_up_data(username: &str, login: &str, password: &str) -> SignUpData {
    SignUpData {
        username: String::from(username),
        login: String::from(login),
        password: String::from(password),
        email: format!("{}@mail.example", login.trim()),
        phone_number: String::from("555-0199"),
        date_of_birth: String::from("1990-02-03"),
        avatar_url: Some(String::from("a.png")),
        country: String::from("C"),
        region: String::from("R"),
        city: String::from("T"),
        address: String::from("A"),
        zip_code: String::from("Z"),
    }
}

fn primaries(store: &UserStore, at: usize) -> Vec<u128> {
    store.users[at]
        .credit_cards
        .as_ref()
        .unwrap()
        .iter()
        .filter(|c| c.is_primary)
        .map(|c| c.id)
        .collect()
}

#[test]
fn users_are_found_by_their_keys() {
    let mut store = UserStore::new(vec![user(1, "ann", None), user(2, "bob", None)]);
    store.add_user(user(3, "ann", None));
    assert_eq!(store.users.len(), 3);
    assert_eq!(store.find_user_by_id(2).unwrap().username, "bob");
    assert_eq!(store.find_user_by_id(3).unwrap().registration_date, Timestamp { secs: 100, nanos: 5 });
    assert!(store.find_user_by_id(4).is_none());
    assert_eq!(store.find_user_by_username("ann").unwrap().id, 1);
    assert!(store.find_user_by_username("Ann").is_none());
    assert_eq!(store.find_user_by_login_or_email("bob-login").unwrap().id, 2);
    assert_eq!(store.find_user_by_login_or_email("bob@example.com").unwrap().id, 2);
    assert!(store.find_user_by_login_or_email("bob").is_none());
}

#[test]
fn update_replaces_the_first_user_of_the_id() {
    let mut store = UserStore::new(vec![user(1, "ann", None), user(2, "bob", None), user(2, "bo", None)]);
    assert!(store.update_user(user(2, "robert", None)));
    assert_eq!(store.users[1].username, "robert");
    assert_eq!(store.users[2].username, "bo");
    assert!(!store.update_user(user(9, "zed", None)));
    assert_eq!(store.users.len(), 3);
    assert_eq!(store.users[0].username, "ann");
}

#[test]
fn a_second_primary_card_replaces_the_first() {
    let mut store = UserStore::new(vec![user(1, "ann", Some(Vec::new()))]);
    assert_eq!(add_credit_card_with(Some(1), &mut store, &input("4000111122223333", true), 11), Ok(()));
    assert_eq!(primaries(&store, 0), vec![11]);
    assert_eq!(add_credit_card_with(Some(1), &mut store, &input("5000111122224444", true), 12), Ok(()));
    let cards = store.users[0].credit_cards.as_ref().unwrap();
    assert_eq!(cards.len(), 2);
    assert!(!cards[0].is_primary);
    assert!(cards[1].is_primary);
    assert_eq!(cards[0].card_number, "4000111122223333");
    assert_eq!(cards[1].expiration_date, "01/31");
    assert_eq!(primaries(&store, 0), vec![12]);
    // a card that is not primary leaves the primary card as it is
    assert_eq!(add_credit_card_with(Some(1), &mut store, &input("6000", false), 13), Ok(()));
    assert_eq!(primaries(&store, 0), vec![12]);
}

#[test]
fn a_card_number_is_added_once() {
    let mut store = UserStore::new(vec![user(1, "ann", None), user(2, "bob", None)]);
    assert_eq!(add_credit_card(Some(1), &mut store, &input("4000", false)), Ok(()));
    assert_eq!(add_credit_card(Some(1), &mut store, &input("4000", true)), Err(ErrorKind::CardAlreadyAdded));
    assert_eq!(store.users[0].credit_cards.as_ref().unwrap().len(), 1);
    assert!(!store.users[0].credit_cards.as_ref().unwrap()[0].is_primary);
    assert_eq!(add_credit_card(Some(2), &mut store, &input("4000", true)), Ok(()));
    assert_eq!(add_credit_card(Some(3), &mut store, &input("4000", true)), Err(ErrorKind::Unauthorized));
    assert_eq!(add_credit_card(None, &mut store, &input("4000", true)), Err(ErrorKind::Unauthorized));
    let id = store.users[1].credit_cards.as_ref().unwrap()[0].id;
    assert_eq!((id >> 76) & 0xF, 4);
}

#[test]
fn a_card_is_deleted_by_its_id() {
    let mut store = UserStore::new(vec![
        user(1, "ann", Some(vec![card(11, "4000", true), card(12, "5000", false)])),
        user(2, "bob", None),
    ]);
    assert_eq!(delete_credit_card(Some(1), &mut store, 13), Err(ErrorKind::CardNotFound));
    assert_eq!(delete_credit_card(Some(2), &mut store, 11), Err(ErrorKind::NoCardsFound));
    assert_eq!(delete_credit_card(None, &mut store, 11), Err(ErrorKind::Unauthorized));
    assert_eq!(delete_credit_card(Some(5), &mut store, 11), Err(ErrorKind::Unauthorized));
    assert_eq!(store.users[0].credit_cards.as_ref().unwrap().len(), 2);
    assert_eq!(delete_credit_card(Some(1), &mut store, 11), Ok(()));
    let cards = store.users[0].credit_cards.as_ref().unwrap();
    assert_eq!(cards.len(), 1);
    assert_eq!(cards[0].id, 12);
    assert_eq!(delete_credit_card(Some(1), &mut store, 12), Ok(()));
    assert_eq!(store.users[0].credit_cards.as_ref().unwrap().len(), 0);
    assert_eq!(delete_credit_card(Some(1), &mut store, 12), Err(ErrorKind::CardNotFound));
}

#[test]
fn the_profile_hides_what_is_secret() {
    let store = UserStore::new(vec![
        user(1, "ann", Some(vec![card(11, "4000111122223333", true), card(12, "123", false)])),
        user(2, "bob", None),
    ]);
    let shown = profile(Some(1), &store).unwrap();
    assert_eq!(shown.password_hash, "******************");
    let cards = shown.credit_cards.unwrap();
    assert_eq!(cards[0].card_number, "************3333");
    assert_eq!(cards[0].id, 11);
    assert!(cards[0].is_primary);
    assert_eq!(cards[1].card_number, "123");
    assert_eq!(shown.username, "ann");
    assert_eq!(shown.email, "ann@example.com");
    assert_eq!(shown.city.as_deref(), Some("Town"));
    // the store keeps the real values
    assert_eq!(store.users[0].password_hash, "not a hash");
    assert_eq!(store.users[0].credit_cards.as_ref().unwrap()[0].card_number, "4000111122223333");
    assert_eq!(profile(Some(2), &store).unwrap().credit_cards.unwrap().len(), 0);
    assert_eq!(profile(None, &store).err(), Some(ErrorKind::Unauthorized));
    assert_eq!(profile(Some(3), &store).err(), Some(ErrorKind::Unauthorized));
    assert_eq!(signed_in_user(Some(2), &store).unwrap().username, "bob");
}

#[test]
fn anyone_sees_the_public_part() {
    let mut u = user(1, "ann", None);
    u.avatar_url = Some(String::from("ann.png"));
    let store = UserStore::new(vec![u]);
    let shown = get_user(1, &store).unwrap();
    assert_eq!(shown.id, 1);
    assert_eq!(shown.username, "ann");
    assert_eq!(shown.avatar_url.as_deref(), Some("ann.png"));
    assert_eq!(get_user(2, &store).err(), Some(ErrorKind::UserNotFound));
}

fn full_update() -> FullProfileUpdate {
    FullProfileUpdate {
        username: String::from("anna"),
        password: String::from("new secret"),
        email: String::from("anna@example.org"),
        phone_number: String::from("777"),
        date_of_birth: String::from("1999-09-09"),
        avatar_url: None,
        country: String::from("NC"),
        region: String::from("NR"),
        city: String::from("NT"),
        address: String::from("NA"),
        zip_code: String::from("NZ"),
        credit_cards: None,
    }
}

fn no_update() -> PartialProfileUpdate {
    PartialProfileUpdate {
        username: None,
        password: None,
        email: None,
        phone_number: None,
        date_of_birth: None,
        avatar_url: None,
        country: None,
        region: None,
        city: None,
        address: None,
        zip_code: None,
        credit_cards: None,
    }
}

#[test]
fn a_full_update_replaces_the_profile() {
    let before = user(1, "ann", Some(vec![card(11, "4000", true)]));
    let after = apply_full_update(before, &full_update(), String::from("H"));
    assert_eq!(after.id, 1);
    assert_eq!(after.login, "ann-login");
    assert_eq!(after.username, "anna");
    assert_eq!(after.password_hash, "H");
    assert_eq!(after.email, "anna@example.org");
    assert_eq!(after.phone_number.as_deref(), Some("777"));
    assert_eq!(after.date_of_birth.as_deref(), Some("1999-09-09"));
    assert_eq!(after.avatar_url.as_deref(), Some(""));
    assert_eq!(after.country.as_deref(), Some("NC"));
    assert_eq!(after.zip_code.as_deref(), Some("NZ"));
    assert_eq!(after.registration_date, Timestamp { secs: 100, nanos: 5 });
    assert_eq!(after.credit_cards.as_ref().unwrap().len(), 1);
    let mut with_cards = full_update();
    with_cards.credit_cards = Some(Vec::new());
    let after = apply_full_update(after, &with_cards, String::from("H2"));
    assert_eq!(after.credit_cards.as_ref().unwrap().len(), 0);
}

#[test]
fn a_partial_update_replaces_what_it_brings() {
    let before = user(1, "ann", Some(vec![card(11, "4000", true)]));
    let same = apply_partial_update(before, &no_update(), None);
    assert_eq!(same.username, "ann");
    assert_eq!(same.password_hash, "not a hash");
    assert_eq!(same.city.as_deref(), Some("Town"));
    assert_eq!(same.country, None);
    assert_eq!(same.credit_cards.as_ref().unwrap().len(), 1);
    let mut some = no_update();
    some.email = Some(String::from("new@example.com"));
    some.city = Some(String::from("City"));
    some.country = Some(String::from("Land"));
    some.credit_cards = Some(vec![card(1, "1", false), card(2, "2", false)]);
    let changed = apply_partial_update(same, &some, Some(String::from("H")));
    assert_eq!(changed.username, "ann");
    assert_eq!(changed.email, "new@example.com");
    assert_eq!(changed.password_hash, "H");
    assert_eq!(changed.city.as_deref(), Some("City"));
    assert_eq!(changed.country.as_deref(), Some("Land"));
    assert_eq!(changed.phone_number.as_deref(), Some("555"));
    assert_eq!(changed.credit_cards.as_ref().unwrap().len(), 2);
}

#[test]
fn profile_updates_store_a_matching_hash() {
    let mut store = UserStore::new(vec![user(1, "ann", None), user(2, "bob", None)]);
    assert_eq!(update_profile_full(Some(2), &mut store, &full_update()), Ok(()));
    assert_eq!(store.users[1].username, "anna");
    assert_eq!(store.users[0].username, "ann");
    assert!(verify_password("new secret", &store.users[1].password_hash));
    assert!(!verify_password("new secret ", &store.users[1].password_hash));
    assert_eq!(update_profile_full(None, &mut store, &full_update()), Err(ErrorKind::Unauthorized));
    assert_eq!(update_profile_full(Some(3), &mut store, &full_update()), Err(ErrorKind::Unauthorized));
    let mut partial = no_update();
    partial.zip_code = Some(String::from("00001"));
    assert_eq!(update_profile_partial(Some(1), &mut store, &partial), Ok(()));
    assert_eq!(store.users[0].zip_code.as_deref(), Some("00001"));
    assert_eq!(store.users[0].password_hash, "not a hash");
    partial.password = Some(String::from("pw"));
    assert_eq!(update_profile_partial(Some(1), &mut store, &partial), Ok(()));
    assert!(verify_password("pw", &store.users[0].password_hash));
    assert_eq!(update_profile_partial(None, &mut store, &partial), Err(ErrorKind::Unauthorized));
}

#[test]
fn hashes_match_their_password_only() {
    let hash = hash_password("hunter2").unwrap();
    assert_eq!(hash.len(), 60);
    assert!(verify_password("hunter2", &hash));
    assert!(!verify_password("hunter3", &hash));
    assert!(!verify_password("hunter2", "hunter2"));
    assert!(!verify_password("hunter2", ""));
    assert!(verify_password("password", "$2a$04$UuTkLRZZ6QofpDOlMz32MuuxEHA43WOemOYHPz6.SjsVsyO1tDU96"));
    assert_ne!(hash, hash_password("hunter2").unwrap());
}

#[test]
fn sign_up_checks_before_it_stores() {
    let mut store = UserStore::new(vec![user(1, "ann", None)]);
    assert_eq!(check_sign_up(&sign_up_data("  ", "l", "p"), &store), Some(ErrorKind::MissingFields));
    assert_eq!(check_sign_up(&sign_up_data("u", "\t", "p"), &store), Some(ErrorKind::MissingFields));
    assert_eq!(check_sign_up(&sign_up_data("u", "l", ""), &store), Some(ErrorKind::MissingFields));
    assert_eq!(check_sign_up(&sign_up_data(" ann ", "l", "p"), &store), Some(ErrorKind::UserAlreadyExists));
    assert_eq!(check_sign_up(&sign_up_data("u", "ann-login", "p"), &store), Some(ErrorKind::UserAlreadyExists));
    assert_eq!(check_sign_up(&sign_up_data("u", " ann@example.com", "p"), &store), Some(ErrorKind::UserAlreadyExists));
    assert_eq!(check_sign_up(&sign_up_data("u", "l", "p"), &store), None);
    // the new email must not be a key of a stored user either
    let mut taken = sign_up_data("u", "l", "p");
    taken.email = String::from("ann@example.com");
    assert_eq!(check_sign_up(&taken, &store), Some(ErrorKind::UserAlreadyExists));
    assert_eq!(sign_up(&taken, &mut store), Err(ErrorKind::UserAlreadyExists));
    taken.email = String::from("ann-login");
    assert_eq!(check_sign_up(&taken, &store), Some(ErrorKind::UserAlreadyExists));
    taken.email = String::from("ann@example.org");
    assert_eq!(check_sign_up(&taken, &store), None);
    assert_eq!(sign_up(&sign_up_data("", "l", "p"), &mut store), Err(ErrorKind::MissingFields));
    assert_eq!(sign_up(&sign_up_data("ann", "l", "p"), &mut store), Err(ErrorKind::UserAlreadyExists));
    assert_eq!(store.users.len(), 1);
}

#[test]
fn a_new_user_is_made_of_the_trimmed_data() {
    let u = new_user(&sign_up_data(" bob ", "\tbobby\n", " pw "), 9, Timestamp { secs: 7, nanos: 8 }, String::from("H"));
    assert_eq!(u.id, 9);
    assert_eq!(u.username, "bob");
    assert_eq!(u.login, "bobby");
    assert_eq!(u.email, "bobby@mail.example");
    assert_eq!(u.password_hash, "H");
    assert_eq!(u.phone_number.as_deref(), Some("555-0199"));
    assert_eq!(u.avatar_url.as_deref(), Some("a.png"));
    assert_eq!(u.registration_date, Timestamp { secs: 7, nanos: 8 });
    assert_eq!(u.last_login_date, None);
    assert_eq!(u.address.as_deref(), Some("A"));
    assert_eq!(u.credit_cards.unwrap().len(), 0);
}

#[test]
fn who_signs_up_can_sign_in() {
    let mut store = UserStore::new(vec![user(1, "ann", None)]);
    assert_eq!(sign_up(&sign_up_data(" bob ", " bobby ", " secret "), &mut store), Ok(()));
    assert_eq!(store.users.len(), 2);
    let bob = &store.users[1];
    assert_eq!(bob.username, "bob");
    assert_eq!(bob.login, "bobby");
    assert!(verify_password("secret", &bob.password_hash));
    assert!(Timestamp { secs: 1_600_000_000, nanos: 0 }.before(&bob.registration_date));
    let id = bob.id;
    let wrong = SignInData { login: String::from("bobby"), password: String::from("Secret") };
    assert_eq!(sign_in(&wrong, None, &mut store), Err(ErrorKind::InvalidCredentials));
    assert_eq!(store.users[1].last_login_date, None);
    let right = SignInData { login: String::from(" bobby"), password: String::from("secret\n") };
    assert_eq!(sign_in(&right, Some(1), &mut store), Err(ErrorKind::AlreadyLoggedIn));
    assert_eq!(sign_in(&right, None, &mut store), Ok(id));
    assert!(store.users[1].last_login_date.is_some());
    assert_eq!(store.users[0].last_login_date, None);
    let by_email = SignInData { login: String::from("bobby@mail.example"), password: String::from("secret") };
    let now = Timestamp { secs: 42, nanos: 1 };
    assert_eq!(sign_in_at(&by_email, None, &mut store, now), Ok(id));
    assert_eq!(store.users[1].last_login_date, Some(now));
}

#[test]
fn sign_in_refuses_what_is_empty_or_unknown() {
    let mut store = UserStore::new(vec![user(1, "ann", None)]);
    let now = Timestamp { secs: 1, nanos: 0 };
    let empty = SignInData { login: String::from("  "), password: String::from("x") };
    assert_eq!(sign_in_at(&empty, None, &mut store, now), Err(ErrorKind::EmptyFields));
    let empty = SignInData { login: String::from("ann-login"), password: String::from(" ") };
    assert_eq!(sign_in_at(&empty, None, &mut store, now), Err(ErrorKind::EmptyFields));
    let unknown = SignInData { login: String::from("nobody"), password: String::from("x") };
    assert_eq!(sign_in_at(&unknown, None, &mut store, now), Err(ErrorKind::InvalidCredentials));
    // the stored hash is no bcrypt hash: nothing matches it
    let ann = SignInData { login: String::from("ann-login"), password: String::from("not a hash") };
    assert_eq!(sign_in_at(&ann, None, &mut store, now), Err(ErrorKind::InvalidCredentials));
    assert_eq!(sign_in_at(&ann, Some(5), &mut store, now), Err(ErrorKind::AlreadyLoggedIn));
    assert_eq!(store.users[0].last_login_date, None);
    assert_eq!(logout(Some(5)), Ok(5));
    assert_eq!(logout(None), Err(ErrorKind::Unauthorized));
    let d = MyData { name: String::from("n"), age: 3 };
    assert_eq!(d.age, 3);
    assert_eq!(d.name, "n");
}
