//! Profiles and credit cards.

use vstd::prelude::*;
use vstd::string::StringExecFns;
use crate::error::ErrorKind;
use crate::func::{can_be_masked, mask_card_number, masked};
use crate::ident::{is_random_uuid, new_id};
use crate::laws::{law_at_most_one_primary_is_kept, law_delete_keeps_at_most_one_primary};
use crate::models::user::{
    at_most_one_primary,
    cards_or_none,
    users_wf,
    clone_cards,
    opt_cards,
    CreditCard,
    CreditCardView,
    FullProfileUpdate,
    FullProfileUpdateView,
    PartialProfileUpdate,
    PartialProfileUpdateView,
    User,
    UserView,
};
use crate::password::{hash_password, password_matches};
use crate::stores::orders_store::{text_of, text_or_empty};
use crate::stores::user_store::{with_id, UserStore};
use crate::views::{
    first_match,
    first_or_none,
    has_match,
    lemma_filter_empty,
    lemma_filter_step,
    lemma_first_match_exists,
    opt_text,
    views_of,
};

verus! {

#[derive(Debug)]
pub struct MyData {
    pub name: String,
    pub age: u8,
}

/// A card as a user enters it.
#[derive(Debug)]
pub struct CreditCardInput {
    pub cardholder_name: String,
    pub card_number: String,
    pub expiration_date: String,
    pub is_primary: bool,
}

pub struct CreditCardInputView {
    pub cardholder_name: Seq<char>,
    pub card_number: Seq<char>,
    pub expiration_date: Seq<char>,
    pub is_primary: bool,
}

impl View for CreditCardInput {
    type V = CreditCardInputView;

    open spec fn view(&self) -> CreditCardInputView {
        CreditCardInputView {
            cardholder_name: self.cardholder_name@,
            card_number: self.card_number@,
            expiration_date: self.expiration_date@,
            is_primary: self.is_primary,
        }
    }
}

/// What anyone may see of a user.
#[derive(Debug)]
pub struct PublicProfile {
    pub id: u128,
    pub avatar_url: Option<String>,
    pub username: String,
}

/// The user of the session: the first user with the session's id.
pub open spec fn session_user_of(session_user: Option<u128>, users: Seq<UserView>) -> Result<
    UserView,
    ErrorKind,
> {
    match session_user {
        None => Err(ErrorKind::Unauthorized),
        Some(id) => match first_or_none(users, with_id(id)) {
            Some(user) => Ok(user),
            None => Err(ErrorKind::Unauthorized),
        },
    }
}

/// The view of the outcome of a request that answers with a user.
pub open spec fn user_result_view(r: Result<User, ErrorKind>) -> Result<UserView, ErrorKind> {
    match r {
        Ok(user) => Ok(user@),
        Err(e) => Err(e),
    }
}

/// A copy of the user of the session.
pub fn signed_in_user(session_user: Option<u128>, users: &UserStore) -> (r: Result<User, ErrorKind>)
    ensures
        user_result_view(r) == session_user_of(session_user, users@),
        r matches Ok(user) ==> session_user == Some(user.id),
{
    match session_user {
        None => Err(ErrorKind::Unauthorized),
        Some(id) => match users.find_user_by_id(id) {
            Some(user) => {
                proof {
                    lemma_first_match_exists(users@, with_id(id));
                }
                Ok(user)
            },
            None => Err(ErrorKind::Unauthorized),
        },
    }
}

/// `card` with its number masked.
pub open spec fn masked_card(card: CreditCardView) -> CreditCardView {
    CreditCardView { card_number: masked(card.card_number), ..card }
}

pub open spec fn masked_cards(cards: Seq<CreditCardView>) -> Seq<CreditCardView> {
    Seq::new(cards.len(), |i: int| masked_card(cards[i]))
}

/// Whether the number of each of `cards` can be masked.
pub open spec fn all_can_be_masked(cards: Seq<CreditCardView>) -> bool {
    forall|i: int| 0 <= i < cards.len() ==> can_be_masked((#[trigger] cards[i]).card_number)
}

/// What a user sees of itself: all of it, but the password hash hidden and the
/// card numbers masked.
pub open spec fn profile_of(user: UserView) -> UserView {
    UserView {
        password_hash: "******************"@,
        credit_cards: Some(masked_cards(cards_or_none(user.credit_cards))),
        ..user
    }
}

/// Whether the profile of the session's user can be shown: where there is such
/// a user, the numbers of its cards can be masked.
pub open spec fn profile_can_be_shown(session_user: Option<u128>, users: Seq<UserView>) -> bool {
    session_user_of(session_user, users) matches Ok(user) ==> all_can_be_masked(
        cards_or_none(user.credit_cards),
    )
}

/// The profile of the session's user.
pub fn profile(session_user: Option<u128>, users: &UserStore) -> (r: Result<User, ErrorKind>)
    requires
        profile_can_be_shown(session_user, users@),
    ensures
        user_result_view(r) == match session_user_of(session_user, users@) {
            Ok(user) => Ok(profile_of(user)),
            Err(e) => Err(e),
        },
{
    let mut user = match signed_in_user(session_user, users) {
        Ok(user) => user,
        Err(e) => {
            return Err(e);
        },
    };
    let mut shown: Vec<CreditCard> = Vec::new();
    match &user.credit_cards {
        Some(cards) => {
            let mut i: usize = 0;
            while i < cards.len()
                invariant
                    i <= cards.len(),
                    shown.len() == i,
                    all_can_be_masked(views_of(cards@)),
                    forall|j: int| 0 <= j < i ==> shown[j]@ == masked_card(cards[j]@),
                decreases cards.len() - i,
            {
                assert(can_be_masked(views_of(cards@)[i as int].card_number));
                shown.push(
                    CreditCard {
                        id: cards[i].id,
                        cardholder_name: cards[i].cardholder_name.clone(),
                        card_number: mask_card_number(cards[i].card_number.as_str()),
                        expiration_date: cards[i].expiration_date.clone(),
                        is_primary: cards[i].is_primary,
                    },
                );
                i = i + 1;
            }
            assert(views_of(shown@) =~= masked_cards(views_of(cards@)));
        },
        None => {
            assert(views_of(shown@) =~= masked_cards(Seq::empty()));
        },
    }
    user.password_hash = String::from_str("******************");
    user.credit_cards = Some(shown);
    Ok(user)
}

/// What anyone may see of the user `id`.
pub fn get_user(id: u128, users: &UserStore) -> (r: Result<PublicProfile, ErrorKind>)
    ensures
        match first_or_none(users@, with_id(id)) {
            Some(user) => r matches Ok(shown) && shown.id == user.id && opt_text(shown.avatar_url)
                == user.avatar_url && shown.username@ == user.username,
            None => r == Err::<PublicProfile, ErrorKind>(ErrorKind::UserNotFound),
        },
{
    match users.find_user_by_id(id) {
        Some(user) => Ok(
            PublicProfile { id: user.id, avatar_url: user.avatar_url, username: user.username },
        ),
        None => Err(ErrorKind::UserNotFound),
    }
}

/// `user` after a full update: every profile field is replaced, a missing
/// avatar by an empty one; the cards only where the update brings a list.
pub open spec fn full_update_of(
    user: UserView,
    payload: FullProfileUpdateView,
    password_hash: Seq<char>,
) -> UserView {
    UserView {
        username: payload.username,
        password_hash,
        email: payload.email,
        phone_number: Some(payload.phone_number),
        date_of_birth: Some(payload.date_of_birth),
        avatar_url: Some(text_or_empty(payload.avatar_url)),
        country: Some(payload.country),
        region: Some(payload.region),
        city: Some(payload.city),
        address: Some(payload.address),
        zip_code: Some(payload.zip_code),
        credit_cards: match payload.credit_cards {
            Some(cards) => Some(cards),
            None => user.credit_cards,
        },
        ..user
    }
}

/// Whether the cards that an update brings, if it brings any, are as cards
/// should be: at most one of them primary.
pub open spec fn new_cards_wf(cards: Option<Seq<CreditCardView>>) -> bool {
    match cards {
        Some(cards) => at_most_one_primary(cards),
        None => true,
    }
}

/// The new value of an optional field: the update's, where it brings one.
pub open spec fn replaced<A>(current: Option<A>, update: Option<A>) -> Option<A> {
    match update {
        Some(value) => Some(value),
        None => current,
    }
}

/// The new value of a field that every user has: the update's, where it brings one.
pub open spec fn replaced_text(current: Seq<char>, update: Option<Seq<char>>) -> Seq<char> {
    match update {
        Some(value) => value,
        None => current,
    }
}

/// `user` after a partial update: each field that the update brings is
/// replaced, the password hash by `password_hash`.
pub open spec fn partial_update_of(
    user: UserView,
    payload: PartialProfileUpdateView,
    password_hash: Option<Seq<char>>,
) -> UserView {
    UserView {
        username: replaced_text(user.username, payload.username),
        password_hash: replaced_text(user.password_hash, password_hash),
        email: replaced_text(user.email, payload.email),
        phone_number: replaced(user.phone_number, payload.phone_number),
        date_of_birth: replaced(user.date_of_birth, payload.date_of_birth),
        avatar_url: replaced(user.avatar_url, payload.avatar_url),
        country: replaced(user.country, payload.country),
        region: replaced(user.region, payload.region),
        city: replaced(user.city, payload.city),
        address: replaced(user.address, payload.address),
        zip_code: replaced(user.zip_code, payload.zip_code),
        credit_cards: replaced(user.credit_cards, payload.credit_cards),
        ..user
    }
}

fn replace_opt(current: Option<String>, update: &Option<String>) -> (r: Option<String>)
    ensures
        opt_text(r) == replaced(opt_text(current), opt_text(*update)),
{
    match update {
        Some(value) => Some(value.clone()),
        None => current,
    }
}

fn replace_text(current: String, update: &Option<String>) -> (r: String)
    ensures
        r@ == replaced_text(current@, opt_text(*update)),
{
    match update {
        Some(value) => value.clone(),
        None => current,
    }
}

fn replace_cards(current: Option<Vec<CreditCard>>, update: &Option<Vec<CreditCard>>) -> (r: Option<
    Vec<CreditCard>,
>)
    ensures
        opt_cards(r) == replaced(opt_cards(current), opt_cards(*update)),
{
    match update {
        Some(cards) => Some(clone_cards(cards)),
        None => current,
    }
}

/// `user` after the full update `payload`, with `password_hash` as the hash of
/// the new password.
pub fn apply_full_update(user: User, payload: &FullProfileUpdate, password_hash: String) -> (r: User)
    ensures
        r@ == full_update_of(user@, payload@, password_hash@),
{
    User {
        id: user.id,
        username: payload.username.clone(),
        login: user.login,
        email: payload.email.clone(),
        password_hash,
        phone_number: Some(payload.phone_number.clone()),
        date_of_birth: Some(payload.date_of_birth.clone()),
        avatar_url: Some(text_of(&payload.avatar_url)),
        registration_date: user.registration_date,
        last_login_date: user.last_login_date,
        country: Some(payload.country.clone()),
        region: Some(payload.region.clone()),
        city: Some(payload.city.clone()),
        address: Some(payload.address.clone()),
        zip_code: Some(payload.zip_code.clone()),
        credit_cards: replace_cards(user.credit_cards, &payload.credit_cards),
    }
}

/// `user` after the partial update `payload`, with `password_hash` as the hash
/// of the new password, where the update brings one.
pub fn apply_partial_update(
    user: User,
    payload: &PartialProfileUpdate,
    password_hash: Option<String>,
) -> (r: User)
    ensures
        r@ == partial_update_of(user@, payload@, opt_text(password_hash)),
{
    User {
        id: user.id,
        username: replace_text(user.username, &payload.username),
        login: user.login,
        email: replace_text(user.email, &payload.email),
        password_hash: replace_text(user.password_hash, &password_hash),
        phone_number: replace_opt(user.phone_number, &payload.phone_number),
        date_of_birth: replace_opt(user.date_of_birth, &payload.date_of_birth),
        avatar_url: replace_opt(user.avatar_url, &payload.avatar_url),
        registration_date: user.registration_date,
        last_login_date: user.last_login_date,
        country: replace_opt(user.country, &payload.country),
        region: replace_opt(user.region, &payload.region),
        city: replace_opt(user.city, &payload.city),
        address: replace_opt(user.address, &payload.address),
        zip_code: replace_opt(user.zip_code, &payload.zip_code),
        credit_cards: replace_cards(user.credit_cards, &payload.credit_cards),
    }
}

/// `users` with its first user of the id `id` replaced by `user`.
pub open spec fn with_user(users: Seq<UserView>, id: u128, user: UserView) -> Seq<UserView> {
    users.update(first_match(users, with_id(id)), user)
}

/// Replaces the whole profile of the session's user. The new password is
/// hashed with a random salt, so the stored hash is one of those that match it.
pub fn update_profile_full(
    session_user: Option<u128>,
    users: &mut UserStore,
    payload: &FullProfileUpdate,
) -> (r: Result<(), ErrorKind>)
    ensures
        match session_user_of(session_user, old(users)@) {
            Err(e) => r == Err::<(), ErrorKind>(e) && final(users)@ == old(users)@,
            Ok(user) => match r {
                Ok(()) => exists|hash: Seq<char>|
                    {
                        &&& password_matches(payload.password@, hash)
                        &&& final(users)@ == with_user(
                            old(users)@,
                            user.id,
                            #[trigger] full_update_of(user, payload@, hash),
                        )
                    },
                Err(e) => e == ErrorKind::HashingError && final(users)@ == old(users)@,
            },
        },
        users_wf(old(users)@) && new_cards_wf(payload@.credit_cards) ==> users_wf(final(users)@),
{
    let user = match signed_in_user(session_user, users) {
        Ok(user) => user,
        Err(e) => {
            return Err(e);
        },
    };
    proof {
        if users_wf(old(users)@) {
            lemma_first_match_exists(old(users)@, with_id(user.id));
        }
    }
    let password_hash = match hash_password(payload.password.as_str()) {
        Some(hash) => hash,
        None => {
            return Err(ErrorKind::HashingError);
        },
    };
    let ghost before = user@;
    let updated = apply_full_update(user, payload, password_hash);
    users.update_user(updated);
    assert(final(users)@ == with_user(
        old(users)@,
        before.id,
        full_update_of(before, payload@, password_hash@),
    ));
    Ok(())
}

/// Replaces the fields of the session's user that `payload` brings. A new
/// password is hashed with a random salt, so the stored hash is one of those
/// that match it.
pub fn update_profile_partial(
    session_user: Option<u128>,
    users: &mut UserStore,
    payload: &PartialProfileUpdate,
) -> (r: Result<(), ErrorKind>)
    ensures
        match session_user_of(session_user, old(users)@) {
            Err(e) => r == Err::<(), ErrorKind>(e) && final(users)@ == old(users)@,
            Ok(user) => match r {
                Ok(()) => exists|hash: Option<Seq<char>>|
                    {
                        &&& hash is Some == payload.password is Some
                        &&& hash matches Some(h) ==> password_matches(payload.password->0@, h)
                        &&& final(users)@ == with_user(
                            old(users)@,
                            user.id,
                            #[trigger] partial_update_of(user, payload@, hash),
                        )
                    },
                Err(e) => {
                    &&& e == ErrorKind::HashingError
                    &&& payload.password is Some
                    &&& final(users)@ == old(users)@
                },
            },
        },
        users_wf(old(users)@) && new_cards_wf(payload@.credit_cards) ==> users_wf(final(users)@),
{
    let user = match signed_in_user(session_user, users) {
        Ok(user) => user,
        Err(e) => {
            return Err(e);
        },
    };
    proof {
        if users_wf(old(users)@) {
            lemma_first_match_exists(old(users)@, with_id(user.id));
        }
    }
    let password_hash = match &payload.password {
        Some(password) => match hash_password(password.as_str()) {
            Some(hash) => Some(hash),
            None => {
                return Err(ErrorKind::HashingError);
            },
        },
        None => None,
    };
    let ghost before = user@;
    let updated = apply_partial_update(user, payload, password_hash);
    users.update_user(updated);
    assert(final(users)@ == with_user(
        old(users)@,
        before.id,
        partial_update_of(before, payload@, opt_text(password_hash)),
    ));
    Ok(())
}

/// The test that holds of the cards with the number `card_number`.
pub open spec fn with_number(card_number: Seq<char>) -> spec_fn(CreditCardView) -> bool {
    |card: CreditCardView| card.card_number == card_number
}

/// The test that keeps every card but the one with the id `card_id`.
pub open spec fn not_card(card_id: u128) -> spec_fn(CreditCardView) -> bool {
    |card: CreditCardView| card.id != card_id
}

/// `card`, not primary.
pub open spec fn secondary(card: CreditCardView) -> CreditCardView {
    CreditCardView { is_primary: false, ..card }
}

/// `cards`, none of them primary.
pub open spec fn without_primary(cards: Seq<CreditCardView>) -> Seq<CreditCardView> {
    Seq::new(cards.len(), |i: int| secondary(cards[i]))
}

/// The card that the input `data` makes under the id `card_id`.
pub open spec fn card_of(data: CreditCardInputView, card_id: u128) -> CreditCardView {
    CreditCardView {
        id: card_id,
        cardholder_name: data.cardholder_name,
        card_number: data.card_number,
        expiration_date: data.expiration_date,
        is_primary: data.is_primary,
    }
}

/// `cards` with the card of `data` behind them; a primary card leaves no
/// other card primary.
pub open spec fn cards_with(cards: Seq<CreditCardView>, data: CreditCardInputView, card_id: u128) -> Seq<
    CreditCardView,
> {
    if data.is_primary {
        without_primary(cards).push(card_of(data, card_id))
    } else {
        cards.push(card_of(data, card_id))
    }
}

/// `user` with `cards` as its cards.
pub open spec fn with_cards(user: UserView, cards: Seq<CreditCardView>) -> UserView {
    UserView { credit_cards: Some(cards), ..user }
}

/// How adding the card of `data` under the id `card_id` leaves the users, and
/// what it answers.
pub open spec fn card_added(
    session_user: Option<u128>,
    before: Seq<UserView>,
    after: Seq<UserView>,
    data: CreditCardInputView,
    card_id: u128,
    r: Result<(), ErrorKind>,
) -> bool {
    match session_user_of(session_user, before) {
        Err(e) => r == Err::<(), ErrorKind>(e) && after == before,
        Ok(user) => {
            let cards = cards_or_none(user.credit_cards);
            if has_match(cards, with_number(data.card_number)) {
                r == Err::<(), ErrorKind>(ErrorKind::CardAlreadyAdded) && after == before
            } else {
                &&& r == Ok::<(), ErrorKind>(())
                &&& after == with_user(
                    before,
                    user.id,
                    with_cards(user, cards_with(cards, data, card_id)),
                )
            }
        },
    }
}

fn take_cards(user: &mut User) -> (cards: Vec<CreditCard>)
    ensures
        views_of(cards@) == cards_or_none(old(user)@.credit_cards),
        final(user)@ == (UserView { credit_cards: None, ..old(user)@ }),
{
    let mut taken: Option<Vec<CreditCard>> = None;
    std::mem::swap(&mut user.credit_cards, &mut taken);
    match taken {
        Some(cards) => cards,
        None => {
            let cards: Vec<CreditCard> = Vec::new();
            assert(views_of(cards@) =~= Seq::<CreditCardView>::empty());
            cards
        },
    }
}

/// Adds the card of `data` to the cards of the session's user, under the id
/// `card_id`.
pub fn add_credit_card_with(
    session_user: Option<u128>,
    users: &mut UserStore,
    data: &CreditCardInput,
    card_id: u128,
) -> (r: Result<(), ErrorKind>)
    ensures
        card_added(session_user, old(users)@, final(users)@, data@, card_id, r),
        users_wf(old(users)@) ==> users_wf(final(users)@),
{
    let mut user = match signed_in_user(session_user, users) {
        Ok(user) => user,
        Err(e) => {
            return Err(e);
        },
    };
    let ghost before = user@;
    let mut cards = take_cards(&mut user);
    let ghost card_views = views_of(cards@);
    let mut i: usize = 0;
    while i < cards.len()
        invariant
            i <= cards.len(),
            card_views == views_of(cards@),
            card_views == cards_or_none(before.credit_cards),
            session_user_of(session_user, old(users)@) == Ok::<UserView, ErrorKind>(before),
            users@ == old(users)@,
            forall|j: int| 0 <= j < i ==> !with_number(data.card_number@)(#[trigger] card_views[j]),
        decreases cards.len() - i,
    {
        if cards[i].card_number == data.card_number {
            assert(with_number(data.card_number@)(card_views[i as int]));
            return Err(ErrorKind::CardAlreadyAdded);
        }
        i = i + 1;
    }
    if data.is_primary {
        let mut k: usize = 0;
        while k < cards.len()
            invariant
                k <= cards.len(),
                cards.len() == card_views.len(),
                forall|j: int| 0 <= j < k ==> (#[trigger] cards[j])@ == secondary(card_views[j]),
                forall|j: int| k <= j < cards.len() ==> (#[trigger] cards[j])@ == card_views[j],
            decreases cards.len() - k,
        {
            cards[k].is_primary = false;
            k = k + 1;
        }
        assert(views_of(cards@) =~= without_primary(card_views));
    }
    let ghost base = views_of(cards@);
    cards.push(
        CreditCard {
            id: card_id,
            cardholder_name: data.cardholder_name.clone(),
            card_number: data.card_number.clone(),
            expiration_date: data.expiration_date.clone(),
            is_primary: data.is_primary,
        },
    );
    assert(views_of(cards@) =~= base.push(card_of(data@, card_id)));
    user.credit_cards = Some(cards);
    proof {
        if users_wf(old(users)@) {
            lemma_first_match_exists(old(users)@, with_id(before.id));
            law_at_most_one_primary_is_kept(card_views, data@, card_id);
        }
    }
    users.update_user(user);
    Ok(())
}

/// Adds the card of `data` to the cards of the session's user. The card's id
/// is drawn at random, so the outcome is the one that `add_credit_card_with`
/// gives for some id.
pub fn add_credit_card(session_user: Option<u128>, users: &mut UserStore, data: &CreditCardInput) -> (r:
    Result<(), ErrorKind>)
    ensures
        exists|card_id: u128|
            is_random_uuid(card_id) && #[trigger] card_added(
                session_user,
                old(users)@,
                final(users)@,
                data@,
                card_id,
                r,
            ),
        users_wf(old(users)@) ==> users_wf(final(users)@),
{
    let card_id = new_id();
    add_credit_card_with(session_user, users, data, card_id)
}

/// Deletes the card `card_id` of the session's user.
pub fn delete_credit_card(session_user: Option<u128>, users: &mut UserStore, card_id: u128) -> (r:
    Result<(), ErrorKind>)
    ensures
        match session_user_of(session_user, old(users)@) {
            Err(e) => r == Err::<(), ErrorKind>(e) && final(users)@ == old(users)@,
            Ok(user) => match user.credit_cards {
                None => r == Err::<(), ErrorKind>(ErrorKind::NoCardsFound) && final(users)@
                    == old(users)@,
                Some(cards) => if cards.filter(not_card(card_id)).len() < cards.len() {
                    &&& r == Ok::<(), ErrorKind>(())
                    &&& final(users)@ == with_user(
                        old(users)@,
                        user.id,
                        with_cards(user, cards.filter(not_card(card_id))),
                    )
                } else {
                    r == Err::<(), ErrorKind>(ErrorKind::CardNotFound) && final(users)@ == old(
                        users,
                    )@
                },
            },
        },
        users_wf(old(users)@) ==> users_wf(final(users)@),
{
    let mut user = match signed_in_user(session_user, users) {
        Ok(user) => user,
        Err(e) => {
            return Err(e);
        },
    };
    if user.credit_cards.is_none() {
        return Err(ErrorKind::NoCardsFound);
    }
    let cards = take_cards(&mut user);
    let ghost card_views = views_of(cards@);
    let mut kept: Vec<CreditCard> = Vec::new();
    let mut i: usize = 0;
    proof {
        assert(card_views.take(0) =~= Seq::<CreditCardView>::empty());
        lemma_filter_empty(not_card(card_id));
        assert(views_of(kept@) =~= Seq::<CreditCardView>::empty());
    }
    while i < cards.len()
        invariant
            i <= cards.len(),
            card_views == views_of(cards@),
            views_of(kept@) == card_views.take(i as int).filter(not_card(card_id)),
        decreases cards.len() - i,
    {
        proof {
            lemma_filter_step(card_views, not_card(card_id), i as int);
        }
        if cards[i].id != card_id {
            let ghost before = kept@;
            kept.push(cards[i].clone());
            assert(views_of(kept@) =~= views_of(before).push(card_views[i as int]));
        }
        i = i + 1;
    }
    assert(card_views.take(cards.len() as int) =~= card_views);
    if kept.len() < cards.len() {
        user.credit_cards = Some(kept);
        proof {
            if users_wf(old(users)@) {
                lemma_first_match_exists(old(users)@, with_id(user.id));
                law_delete_keeps_at_most_one_primary(card_views, not_card(card_id));
            }
        }
        users.update_user(user);
        Ok(())
    } else {
        Err(ErrorKind::CardNotFound)
    }
}

} // verus!
