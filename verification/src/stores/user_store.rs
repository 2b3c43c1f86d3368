//! Users, found by id, by username, or by login or email.

use vstd::prelude::*;
use crate::laws::law_users_stay_wf;
use crate::models::user::{user_wf, users_wf, User, UserView};
use crate::views::{first_match, first_or_none, has_match, is_first, lemma_first_match_is, opt_view, views_of};

verus! {

/// All users, in the order in which they signed up.
#[derive(Debug)]
pub struct UserStore {
    pub users: Vec<User>,
}

impl View for UserStore {
    type V = Seq<UserView>;

    open spec fn view(&self) -> Seq<UserView> {
        views_of(self.users@)
    }
}

/// The test that holds of the users with the id `id`.
pub open spec fn with_id(id: u128) -> spec_fn(UserView) -> bool {
    |user: UserView| user.id == id
}

/// The test that holds of the users named `username`.
pub open spec fn with_username(username: Seq<char>) -> spec_fn(UserView) -> bool {
    |user: UserView| user.username == username
}

/// The test that holds of the users whose login or email is `text`.
pub open spec fn with_login_or_email(text: Seq<char>) -> spec_fn(UserView) -> bool {
    |user: UserView| user.login == text || user.email == text
}

/// The first position of `users` with the id `id`.
pub fn position_of_user(users: &Vec<User>, id: u128) -> (found: Option<usize>)
    ensures
        match found {
            Some(i) => is_first(views_of(users@), with_id(id), i as int),
            None => !has_match(views_of(users@), with_id(id)),
        },
{
    let mut i: usize = 0;
    while i < users.len()
        invariant
            i <= users.len(),
            forall|j: int| 0 <= j < i ==> !with_id(id)(#[trigger] views_of(users@)[j]),
        decreases users.len() - i,
    {
        if users[i].id == id {
            return Some(i);
        }
        i = i + 1;
    }
    None
}

impl UserStore {
    /// A store that holds `users`, as they were loaded.
    pub fn new(users: Vec<User>) -> (store: Self)
        ensures
            store@ == views_of(users@),
    {
        UserStore { users }
    }

    /// Whether the users are as they should be. Users that were loaded may not
    /// be; adding and deleting cards keeps them so.
    pub fn is_well_formed(&self) -> (ok: bool)
        ensures
            ok == users_wf(self@),
    {
        let mut i: usize = 0;
        while i < self.users.len()
            invariant
                i <= self.users.len(),
                forall|k: int| 0 <= k < i ==> user_wf(#[trigger] self@[k]),
            decreases self.users.len() - i,
        {
            if !self.users[i].is_well_formed() {
                assert(!user_wf(self@[i as int]));
                return false;
            }
            i = i + 1;
        }
        true
    }

    /// Puts `user` behind all others. Nothing is asked of its id, username,
    /// login or email: whoever signs a user up checks them first.
    pub fn add_user(&mut self, user: User)
        ensures
            final(self)@ == old(self)@.push(user@),
            users_wf(old(self)@) && user_wf(user@) ==> users_wf(final(self)@),
    {
        let ghost before = self.users@;
        self.users.push(user);
        assert(self@ =~= views_of(before).push(user@));
        proof {
            if users_wf(views_of(before)) && user_wf(user@) {
                law_users_stay_wf(views_of(before), 0, user@);
            }
        }
    }

    /// A copy of the first user named `username`.
    pub fn find_user_by_username(&self, username: &str) -> (found: Option<User>)
        ensures
            opt_view(found) == first_or_none(self@, with_username(username@)),
    {
        let wanted: String = username.to_owned();
        let mut i: usize = 0;
        while i < self.users.len()
            invariant
                i <= self.users.len(),
                wanted@ == username@,
                forall|j: int| 0 <= j < i ==> !with_username(username@)(#[trigger] self@[j]),
            decreases self.users.len() - i,
        {
            if self.users[i].username == wanted {
                proof {
                    lemma_first_match_is(self@, with_username(username@), i as int);
                }
                return Some(self.users[i].clone());
            }
            i = i + 1;
        }
        None
    }

    /// A copy of the first user whose login or email is `login_or_email`.
    pub fn find_user_by_login_or_email(&self, login_or_email: &str) -> (found: Option<User>)
        ensures
            opt_view(found) == first_or_none(self@, with_login_or_email(login_or_email@)),
    {
        let wanted: String = login_or_email.to_owned();
        let mut i: usize = 0;
        while i < self.users.len()
            invariant
                i <= self.users.len(),
                wanted@ == login_or_email@,
                forall|j: int|
                    0 <= j < i ==> !with_login_or_email(login_or_email@)(#[trigger] self@[j]),
            decreases self.users.len() - i,
        {
            if self.users[i].login == wanted || self.users[i].email == wanted {
                proof {
                    lemma_first_match_is(self@, with_login_or_email(login_or_email@), i as int);
                }
                return Some(self.users[i].clone());
            }
            i = i + 1;
        }
        None
    }

    /// A copy of the first user with the id `user_id`.
    pub fn find_user_by_id(&self, user_id: u128) -> (found: Option<User>)
        ensures
            opt_view(found) == first_or_none(self@, with_id(user_id)),
    {
        match position_of_user(&self.users, user_id) {
            Some(i) => {
                proof {
                    lemma_first_match_is(self@, with_id(user_id), i as int);
                }
                Some(self.users[i].clone())
            },
            None => None,
        }
    }

    /// Puts `updated_user` in the place of the first user with its id, and says
    /// whether there was one.
    pub fn update_user(&mut self, updated_user: User) -> (updated: bool)
        ensures
            updated == has_match(old(self)@, with_id(updated_user.id)),
            updated ==> final(self)@ == old(self)@.update(
                first_match(old(self)@, with_id(updated_user.id)),
                updated_user@,
            ),
            !updated ==> final(self)@ == old(self)@,
            users_wf(old(self)@) && user_wf(updated_user@) ==> users_wf(final(self)@),
    {
        let ghost before = self.users@;
        match position_of_user(&self.users, updated_user.id) {
            Some(i) => {
                proof {
                    lemma_first_match_is(self@, with_id(updated_user.id), i as int);
                }
                self.users[i] = updated_user;
                assert(self@ =~= views_of(before).update(i as int, updated_user@));
                proof {
                    if users_wf(views_of(before)) && user_wf(updated_user@) {
                        law_users_stay_wf(views_of(before), i as int, updated_user@);
                    }
                }
                true
            },
            None => false,
        }
    }
}

} // verus!
