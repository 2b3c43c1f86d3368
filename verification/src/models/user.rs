//! Users and their credit cards.

use vstd::prelude::*;
use crate::clock::Timestamp;
use crate::views::{
    clone_opt_string,
    lemma_filter_empty,
    lemma_filter_step,
    lemma_occurrences_prefix,
    occurrences,
    opt_text,
    views_of,
};

verus! {

#[derive(Debug)]
pub struct CreditCard {
    pub id: u128,
    pub cardholder_name: String,
    pub card_number: String,
    pub expiration_date: String,
    pub is_primary: bool,
}

pub struct CreditCardView {
    pub id: u128,
    pub cardholder_name: Seq<char>,
    pub card_number: Seq<char>,
    pub expiration_date: Seq<char>,
    pub is_primary: bool,
}

impl View for CreditCard {
    type V = CreditCardView;

    open spec fn view(&self) -> CreditCardView {
        CreditCardView {
            id: self.id,
            cardholder_name: self.cardholder_name@,
            card_number: self.card_number@,
            expiration_date: self.expiration_date@,
            is_primary: self.is_primary,
        }
    }
}

impl Clone for CreditCard {
    fn clone(&self) -> (copy: Self)
        ensures
            copy@ == self@,
    {
        CreditCard {
            id: self.id,
            cardholder_name: self.cardholder_name.clone(),
            card_number: self.card_number.clone(),
            expiration_date: self.expiration_date.clone(),
            is_primary: self.is_primary,
        }
    }
}

/// A copy of each card of `cards`, in order.
pub fn clone_cards(cards: &Vec<CreditCard>) -> (copy: Vec<CreditCard>)
    ensures
        views_of(copy@) == views_of(cards@),
{
    let mut copy: Vec<CreditCard> = Vec::new();
    let mut i: usize = 0;
    while i < cards.len()
        invariant
            i <= cards.len(),
            copy.len() == i,
            forall|j: int| 0 <= j < i ==> copy[j]@ == cards[j]@,
        decreases cards.len() - i,
    {
        copy.push(cards[i].clone());
        i = i + 1;
    }
    assert(views_of(copy@) =~= views_of(cards@));
    copy
}

/// The test that holds of the primary cards.
pub open spec fn primary() -> spec_fn(CreditCardView) -> bool {
    |card: CreditCardView| card.is_primary
}

/// What every list of cards keeps: at most one of the cards is primary.
pub open spec fn at_most_one_primary(cards: Seq<CreditCardView>) -> bool {
    occurrences(cards, primary()) <= 1
}

/// The cards of a user, which are none where it has no list.
pub open spec fn cards_or_none(cards: Option<Seq<CreditCardView>>) -> Seq<CreditCardView> {
    match cards {
        Some(cards) => cards,
        None => Seq::empty(),
    }
}

/// The view of an optional list of cards.
pub open spec fn opt_cards(o: Option<Vec<CreditCard>>) -> Option<Seq<CreditCardView>> {
    match o {
        Some(cards) => Some(views_of(cards@)),
        None => None,
    }
}

/// A copy of an optional list of cards.
pub fn clone_opt_cards(o: &Option<Vec<CreditCard>>) -> (copy: Option<Vec<CreditCard>>)
    ensures
        opt_cards(copy) == opt_cards(*o),
{
    match o {
        Some(cards) => Some(clone_cards(cards)),
        None => None,
    }
}

#[derive(Debug)]
pub struct User {
    pub id: u128,
    pub username: String,
    pub login: String,
    pub email: String,
    pub password_hash: String,
    pub phone_number: Option<String>,
    pub date_of_birth: Option<String>,
    pub avatar_url: Option<String>,
    pub registration_date: Timestamp,
    pub last_login_date: Option<Timestamp>,
    pub country: Option<String>,
    pub region: Option<String>,
    pub city: Option<String>,
    pub address: Option<String>,
    pub zip_code: Option<String>,
    pub credit_cards: Option<Vec<CreditCard>>,
}

pub struct UserView {
    pub id: u128,
    pub username: Seq<char>,
    pub login: Seq<char>,
    pub email: Seq<char>,
    pub password_hash: Seq<char>,
    pub phone_number: Option<Seq<char>>,
    pub date_of_birth: Option<Seq<char>>,
    pub avatar_url: Option<Seq<char>>,
    pub registration_date: Timestamp,
    pub last_login_date: Option<Timestamp>,
    pub country: Option<Seq<char>>,
    pub region: Option<Seq<char>>,
    pub city: Option<Seq<char>>,
    pub address: Option<Seq<char>>,
    pub zip_code: Option<Seq<char>>,
    pub credit_cards: Option<Seq<CreditCardView>>,
}

impl View for User {
    type V = UserView;

    open spec fn view(&self) -> UserView {
        UserView {
            id: self.id,
            username: self.username@,
            login: self.login@,
            email: self.email@,
            password_hash: self.password_hash@,
            phone_number: opt_text(self.phone_number),
            date_of_birth: opt_text(self.date_of_birth),
            avatar_url: opt_text(self.avatar_url),
            registration_date: self.registration_date,
            last_login_date: self.last_login_date,
            country: opt_text(self.country),
            region: opt_text(self.region),
            city: opt_text(self.city),
            address: opt_text(self.address),
            zip_code: opt_text(self.zip_code),
            credit_cards: opt_cards(self.credit_cards),
        }
    }
}

/// What every user keeps: at most one of its cards is primary.
pub open spec fn user_wf(user: UserView) -> bool {
    at_most_one_primary(cards_or_none(user.credit_cards))
}

/// What the users keep: each of them is as a user should be.
pub open spec fn users_wf(users: Seq<UserView>) -> bool {
    forall|i: int| 0 <= i < users.len() ==> user_wf(#[trigger] users[i])
}

/// Whether at most one of `cards` is primary.
pub fn cards_are_well_formed(cards: &Vec<CreditCard>) -> (ok: bool)
    ensures
        ok == at_most_one_primary(views_of(cards@)),
{
    let ghost card_views = views_of(cards@);
    let mut seen: bool = false;
    let mut i: usize = 0;
    proof {
        assert(card_views.take(0) =~= Seq::<CreditCardView>::empty());
        lemma_filter_empty(primary());
    }
    while i < cards.len()
        invariant
            i <= cards.len(),
            card_views == views_of(cards@),
            occurrences(card_views.take(i as int), primary()) == if seen {
                1nat
            } else {
                0nat
            },
        decreases cards.len() - i,
    {
        proof {
            lemma_filter_step(card_views, primary(), i as int);
        }
        if cards[i].is_primary {
            if seen {
                proof {
                    assert(card_views.take(cards.len() as int) =~= card_views);
                    lemma_occurrences_prefix(card_views, primary(), i as int + 1);
                }
                return false;
            }
            seen = true;
        }
        i = i + 1;
    }
    assert(card_views.take(cards.len() as int) =~= card_views);
    true
}

impl User {
    /// Whether at most one card of the user is primary.
    pub fn is_well_formed(&self) -> (ok: bool)
        ensures
            ok == user_wf(self@),
    {
        match &self.credit_cards {
            Some(cards) => cards_are_well_formed(cards),
            None => {
                proof {
                    lemma_filter_empty(primary());
                }
                true
            },
        }
    }
}

impl Clone for User {
    fn clone(&self) -> (copy: Self)
        ensures
            copy@ == self@,
    {
        User {
            id: self.id,
            username: self.username.clone(),
            login: self.login.clone(),
            email: self.email.clone(),
            password_hash: self.password_hash.clone(),
            phone_number: clone_opt_string(&self.phone_number),
            date_of_birth: clone_opt_string(&self.date_of_birth),
            avatar_url: clone_opt_string(&self.avatar_url),
            registration_date: self.registration_date,
            last_login_date: self.last_login_date,
            country: clone_opt_string(&self.country),
            region: clone_opt_string(&self.region),
            city: clone_opt_string(&self.city),
            address: clone_opt_string(&self.address),
            zip_code: clone_opt_string(&self.zip_code),
            credit_cards: clone_opt_cards(&self.credit_cards),
        }
    }
}

/// All that a full profile update replaces.
#[derive(Debug)]
pub struct FullProfileUpdate {
    pub username: String,
    pub password: String,
    pub email: String,
    pub phone_number: String,
    pub date_of_birth: String,
    pub avatar_url: Option<String>,
    pub country: String,
    pub region: String,
    pub city: String,
    pub address: String,
    pub zip_code: String,
    pub credit_cards: Option<Vec<CreditCard>>,
}

pub struct FullProfileUpdateView {
    pub username: Seq<char>,
    pub password: Seq<char>,
    pub email: Seq<char>,
    pub phone_number: Seq<char>,
    pub date_of_birth: Seq<char>,
    pub avatar_url: Option<Seq<char>>,
    pub country: Seq<char>,
    pub region: Seq<char>,
    pub city: Seq<char>,
    pub address: Seq<char>,
    pub zip_code: Seq<char>,
    pub credit_cards: Option<Seq<CreditCardView>>,
}

impl View for FullProfileUpdate {
    type V = FullProfileUpdateView;

    open spec fn view(&self) -> FullProfileUpdateView {
        FullProfileUpdateView {
            username: self.username@,
            password: self.password@,
            email: self.email@,
            phone_number: self.phone_number@,
            date_of_birth: self.date_of_birth@,
            avatar_url: opt_text(self.avatar_url),
            country: self.country@,
            region: self.region@,
            city: self.city@,
            address: self.address@,
            zip_code: self.zip_code@,
            credit_cards: opt_cards(self.credit_cards),
        }
    }
}

/// What a partial profile update may replace: each field that is present.
#[derive(Debug)]
pub struct PartialProfileUpdate {
    pub username: Option<String>,
    pub password: Option<String>,
    pub email: Option<String>,
    pub phone_number: Option<String>,
    pub date_of_birth: Option<String>,
    pub avatar_url: Option<String>,
    pub country: Option<String>,
    pub region: Option<String>,
    pub city: Option<String>,
    pub address: Option<String>,
    pub zip_code: Option<String>,
    pub credit_cards: Option<Vec<CreditCard>>,
}

pub struct PartialProfileUpdateView {
    pub username: Option<Seq<char>>,
    pub password: Option<Seq<char>>,
    pub email: Option<Seq<char>>,
    pub phone_number: Option<Seq<char>>,
    pub date_of_birth: Option<Seq<char>>,
    pub avatar_url: Option<Seq<char>>,
    pub country: Option<Seq<char>>,
    pub region: Option<Seq<char>>,
    pub city: Option<Seq<char>>,
    pub address: Option<Seq<char>>,
    pub zip_code: Option<Seq<char>>,
    pub credit_cards: Option<Seq<CreditCardView>>,
}

impl View for PartialProfileUpdate {
    type V = PartialProfileUpdateView;

    open spec fn view(&self) -> PartialProfileUpdateView {
        PartialProfileUpdateView {
            username: opt_text(self.username),
            password: opt_text(self.password),
            email: opt_text(self.email),
            phone_number: opt_text(self.phone_number),
            date_of_birth: opt_text(self.date_of_birth),
            avatar_url: opt_text(self.avatar_url),
            country: opt_text(self.country),
            region: opt_text(self.region),
            city: opt_text(self.city),
            address: opt_text(self.address),
            zip_code: opt_text(self.zip_code),
            credit_cards: opt_cards(self.credit_cards),
        }
    }
}

} // verus!
