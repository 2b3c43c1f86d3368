//! Signing up, signing in and logging out.

use vstd::prelude::*;
use crate::clock::Timestamp;
use crate::error::ErrorKind;
use crate::ident::{is_random_uuid, new_id};
use crate::laws::law_users_stay_wf;
use crate::models::user::{primary, users_wf, CreditCard, CreditCardView, User, UserView};
use crate::password::{hash_password, password_matches, verify_password};
use crate::stores::user_store::{
    position_of_user,
    with_id,
    with_login_or_email,
    with_username,
    UserStore,
};
use crate::text::{trim, trimmed};
use crate::views::{
    clone_opt_string,
    first_match,
    first_or_none,
    has_match,
    lemma_filter_empty,
    lemma_first_match_exists,
    lemma_first_match_is,
    opt_text,
    views_of,
};

verus! {

/// What a new user enters.
#[derive(Debug)]
pub struct SignUpData {
    pub username: String,
    pub login: String,
    pub password: String,
    pub email: String,
    pub phone_number: String,
    pub date_of_birth: String,
    pub avatar_url: Option<String>,
    pub country: String,
    pub region: String,
    pub city: String,
    pub address: String,
    pub zip_code: String,
}

pub struct SignUpDataView {
    pub username: Seq<char>,
    pub login: Seq<char>,
    pub password: Seq<char>,
    pub email: Seq<char>,
    pub phone_number: Seq<char>,
    pub date_of_birth: Seq<char>,
    pub avatar_url: Option<Seq<char>>,
    pub country: Seq<char>,
    pub region: Seq<char>,
    pub city: Seq<char>,
    pub address: Seq<char>,
    pub zip_code: Seq<char>,
}

impl View for SignUpData {
    type V = SignUpDataView;

    open spec fn view(&self) -> SignUpDataView {
        SignUpDataView {
            username: self.username@,
            login: self.login@,
            password: self.password@,
            email: self.email@,
            phone_number: self.phone_number@,
            date_of_birth: self.date_of_birth@,
            avatar_url: opt_text(self.avatar_url),
            country: self.country@,
            region: self.region@,
            city: self.city@,
            address: self.address@,
            zip_code: self.zip_code@,
        }
    }
}

/// What a user enters to sign in: its login or email, and its password.
#[derive(Debug)]
pub struct SignInData {
    pub login: String,
    pub password: String,
}

pub struct SignInDataView {
    pub login: Seq<char>,
    pub password: Seq<char>,
}

impl View for SignInData {
    type V = SignInDataView;

    open spec fn view(&self) -> SignInDataView {
        SignInDataView { login: self.login@, password: self.password@ }
    }
}

/// Whether `data` would give a user a key that some user has already: the
/// username is taken, or the login or the email is some user's login or email.
pub open spec fn is_taken(data: SignUpDataView, users: Seq<UserView>) -> bool {
    ||| has_match(users, with_username(trimmed(data.username)))
    ||| has_match(users, with_login_or_email(trimmed(data.login)))
    ||| has_match(users, with_login_or_email(data.email))
}

/// Why `data` cannot be signed up among `users`, if it cannot: a required
/// field is empty once trimmed, or one of its keys is taken.
pub open spec fn sign_up_refusal(data: SignUpDataView, users: Seq<UserView>) -> Option<ErrorKind> {
    if trimmed(data.username).len() == 0 || trimmed(data.login).len() == 0 || trimmed(
        data.password,
    ).len() == 0 {
        Some(ErrorKind::MissingFields)
    } else if is_taken(data, users) {
        Some(ErrorKind::UserAlreadyExists)
    } else {
        None
    }
}

/// The user that `data` makes: the username and the login trimmed, no cards
/// yet, never signed in.
pub open spec fn new_user_of(
    data: SignUpDataView,
    id: u128,
    now: Timestamp,
    password_hash: Seq<char>,
) -> UserView {
    UserView {
        id,
        username: trimmed(data.username),
        login: trimmed(data.login),
        email: data.email,
        password_hash,
        phone_number: Some(data.phone_number),
        date_of_birth: Some(data.date_of_birth),
        avatar_url: data.avatar_url,
        registration_date: now,
        last_login_date: None,
        country: Some(data.country),
        region: Some(data.region),
        city: Some(data.city),
        address: Some(data.address),
        zip_code: Some(data.zip_code),
        credit_cards: Some(Seq::empty()),
    }
}

/// Why `data` cannot be signed up among `users`, if it cannot.
pub fn check_sign_up(data: &SignUpData, users: &UserStore) -> (refusal: Option<ErrorKind>)
    ensures
        refusal == sign_up_refusal(data@, users@),
{
    let login = trim(data.login.as_str());
    let username = trim(data.username.as_str());
    let password = trim(data.password.as_str());
    if username.as_str().is_empty() || login.as_str().is_empty() || password.as_str().is_empty() {
        return Some(ErrorKind::MissingFields);
    }
    if users.find_user_by_username(username.as_str()).is_some() {
        return Some(ErrorKind::UserAlreadyExists);
    }
    if users.find_user_by_login_or_email(login.as_str()).is_some() {
        return Some(ErrorKind::UserAlreadyExists);
    }
    if users.find_user_by_login_or_email(data.email.as_str()).is_some() {
        return Some(ErrorKind::UserAlreadyExists);
    }
    None
}

/// The user that `data` makes under the id `id`, registered at `now`.
pub fn new_user(data: &SignUpData, id: u128, now: Timestamp, password_hash: String) -> (user: User)
    ensures
        user@ == new_user_of(data@, id, now, password_hash@),
{
    let cards: Vec<CreditCard> = Vec::new();
    assert(views_of(cards@) =~= Seq::<CreditCardView>::empty());
    User {
        id,
        username: trim(data.username.as_str()),
        login: trim(data.login.as_str()),
        email: data.email.clone(),
        password_hash,
        phone_number: Some(data.phone_number.clone()),
        date_of_birth: Some(data.date_of_birth.clone()),
        avatar_url: clone_opt_string(&data.avatar_url),
        registration_date: now,
        last_login_date: None,
        country: Some(data.country.clone()),
        region: Some(data.region.clone()),
        city: Some(data.city.clone()),
        address: Some(data.address.clone()),
        zip_code: Some(data.zip_code.clone()),
        credit_cards: Some(cards),
    }
}

/// Signs `data` up as a new user behind all others. Its id is drawn at
/// random, its registration time read from the system clock, and its trimmed
/// password hashed with a random salt: the stored hash is one that matches it.
pub fn sign_up(data: &SignUpData, users: &mut UserStore) -> (r: Result<(), ErrorKind>)
    ensures
        match sign_up_refusal(data@, old(users)@) {
            Some(e) => r == Err::<(), ErrorKind>(e) && final(users)@ == old(users)@,
            None => match r {
                Ok(()) => exists|id: u128, now: Timestamp, hash: Seq<char>|
                    {
                        &&& is_random_uuid(id)
                        &&& now.is_outside_leap_second()
                        &&& password_matches(trimmed(data.password@), hash)
                        &&& final(users)@ == old(users)@.push(
                            #[trigger] new_user_of(data@, id, now, hash),
                        )
                    },
                Err(e) => e == ErrorKind::HashingError && final(users)@ == old(users)@,
            },
        },
        users_wf(old(users)@) ==> users_wf(final(users)@),
{
    match check_sign_up(data, users) {
        Some(e) => {
            return Err(e);
        },
        None => {},
    }
    let password = trim(data.password.as_str());
    let password_hash = match hash_password(password.as_str()) {
        Some(hash) => hash,
        None => {
            return Err(ErrorKind::HashingError);
        },
    };
    let id = new_id();
    let now = Timestamp::now();
    let user = new_user(data, id, now, password_hash);
    proof {
        lemma_filter_empty(primary());
    }
    users.add_user(user);
    assert(final(users)@ == old(users)@.push(new_user_of(data@, id, now, password_hash@)));
    Ok(())
}

/// The user that `data` signs in as, or why it signs in as none. A request
/// that carries a user already is refused; so are an empty login or password,
/// once trimmed, an unknown login, and a password that does not match the
/// stored hash.
pub open spec fn credentials_check(
    data: SignInDataView,
    session_user: Option<u128>,
    users: Seq<UserView>,
) -> Result<UserView, ErrorKind> {
    if session_user is Some {
        Err(ErrorKind::AlreadyLoggedIn)
    } else if trimmed(data.login).len() == 0 || trimmed(data.password).len() == 0 {
        Err(ErrorKind::EmptyFields)
    } else {
        match first_or_none(users, with_login_or_email(trimmed(data.login))) {
            None => Err(ErrorKind::InvalidCredentials),
            Some(user) => if password_matches(trimmed(data.password), user.password_hash) {
                Ok(user)
            } else {
                Err(ErrorKind::InvalidCredentials)
            },
        }
    }
}

/// `user`, last signed in at `now`.
pub open spec fn signed_in_at(user: UserView, now: Timestamp) -> UserView {
    UserView { last_login_date: Some(now), ..user }
}

/// How signing in at `now` leaves the users, and what it answers: the id of
/// the user, for the session to carry, with the first user of that id marked
/// as signed in at `now`.
pub open spec fn signed_in(
    data: SignInDataView,
    session_user: Option<u128>,
    before: Seq<UserView>,
    after: Seq<UserView>,
    now: Timestamp,
    r: Result<u128, ErrorKind>,
) -> bool {
    match credentials_check(data, session_user, before) {
        Err(e) => r == Err::<u128, ErrorKind>(e) && after == before,
        Ok(user) => {
            let position = first_match(before, with_id(user.id));
            &&& r == Ok::<u128, ErrorKind>(user.id)
            &&& after == before.update(position, signed_in_at(before[position], now))
        },
    }
}

/// Signs the user of `data` in at the instant `now`.
pub fn sign_in_at(
    data: &SignInData,
    session_user: Option<u128>,
    users: &mut UserStore,
    now: Timestamp,
) -> (r: Result<u128, ErrorKind>)
    ensures
        signed_in(data@, session_user, old(users)@, final(users)@, now, r),
        users_wf(old(users)@) ==> users_wf(final(users)@),
{
    if session_user.is_some() {
        return Err(ErrorKind::AlreadyLoggedIn);
    }
    let login = trim(data.login.as_str());
    let password = trim(data.password.as_str());
    if login.as_str().is_empty() || password.as_str().is_empty() {
        return Err(ErrorKind::EmptyFields);
    }
    let user = match users.find_user_by_login_or_email(login.as_str()) {
        Some(user) => user,
        None => {
            return Err(ErrorKind::InvalidCredentials);
        },
    };
    if !verify_password(password.as_str(), user.password_hash.as_str()) {
        return Err(ErrorKind::InvalidCredentials);
    }
    let ghost before = users.users@;
    proof {
        lemma_first_match_exists(users@, with_login_or_email(login@));
        let k = first_match(users@, with_login_or_email(login@));
        assert(with_id(user.id)(users@[k]));
    }
    match position_of_user(&users.users, user.id) {
        Some(i) => {
            proof {
                lemma_first_match_is(users@, with_id(user.id), i as int);
            }
            users.users[i].last_login_date = Some(now);
            assert(users@ =~= views_of(before).update(
                i as int,
                signed_in_at(views_of(before)[i as int], now),
            ));
            proof {
                if users_wf(views_of(before)) {
                    law_users_stay_wf(
                        views_of(before),
                        i as int,
                        signed_in_at(views_of(before)[i as int], now),
                    );
                }
            }
        },
        None => {},
    }
    Ok(user.id)
}

/// Signs the user of `data` in now, by the system clock: the outcome is the
/// one that `sign_in_at` gives for some instant.
pub fn sign_in(data: &SignInData, session_user: Option<u128>, users: &mut UserStore) -> (r: Result<
    u128,
    ErrorKind,
>)
    ensures
        exists|now: Timestamp|
            now.is_outside_leap_second() && #[trigger] signed_in(
                data@,
                session_user,
                old(users)@,
                final(users)@,
                now,
                r,
            ),
        users_wf(old(users)@) ==> users_wf(final(users)@),
{
    let now = Timestamp::now();
    sign_in_at(data, session_user, users, now)
}

/// Ends the session: the id of the user that it carried.
pub fn logout(session_user: Option<u128>) -> (r: Result<u128, ErrorKind>)
    ensures
        r == match session_user {
            Some(id) => Ok::<u128, ErrorKind>(id),
            None => Err::<u128, ErrorKind>(ErrorKind::Unauthorized),
        },
{
    match session_user {
        Some(id) => Ok(id),
        None => Err(ErrorKind::Unauthorized),
    }
}

} // verus!
