//! The directory of registered users and their acceptance of the license.
use vstd::prelude::*;
use crate::identity::Identity;

verus! {

#[derive(Debug)]
pub struct User {
    pub principal: Identity,
    pub username: String,
    pub is_seller: bool,
    pub license_agreed: bool,
}

pub struct UserView {
    pub principal: Seq<u8>,
    pub username: Seq<char>,
    pub is_seller: bool,
    pub license_agreed: bool,
}

impl View for User {
    type V = UserView;

    open spec fn view(&self) -> UserView {
        UserView {
            principal: self.principal@,
            username: self.username@,
            is_seller: self.is_seller,
            license_agreed: self.license_agreed,
        }
    }
}

impl User {
    pub fn duplicate(&self) -> (r: User)
        ensures
            r@ == self@,
    {
        User {
            principal: self.principal.duplicate(),
            username: self.username.clone(),
            is_seller: self.is_seller,
            license_agreed: self.license_agreed,
        }
    }
}

#[derive(PartialEq, Eq, Structural, Clone, Copy, Debug)]
pub enum UserError {
    AlreadyRegistered,
    NotRegistered,
}

/// Whether `who` is registered in `users`.
pub open spec fn is_registered(users: Seq<UserView>, who: Seq<u8>) -> bool {
    exists|i: int| 0 <= i < users.len() && #[trigger] users[i].principal == who
}

/// Where `who` is registered in `users`; meaningful where `is_registered`.
pub open spec fn user_index(users: Seq<UserView>, who: Seq<u8>) -> int {
    choose|i: int| 0 <= i < users.len() && #[trigger] users[i].principal == who
}

/// No identity is registered twice.
pub open spec fn distinct_principals(users: Seq<UserView>) -> bool {
    forall|i: int, j: int|
        0 <= i < users.len() && 0 <= j < users.len() && i != j ==> #[trigger] users[i].principal
            != #[trigger] users[j].principal
}

/// The registered users, in the order they registered.
pub struct UserDirectory {
    users: Vec<User>,
}

impl View for UserDirectory {
    type V = Seq<UserView>;

    closed spec fn view(&self) -> Seq<UserView> {
        self.users@.map_values(|u: User| u@)
    }
}

impl UserDirectory {
    pub fn new() -> (r: UserDirectory)
        ensures
            r@ == Seq::<UserView>::empty(),
    {
        let r = UserDirectory { users: Vec::new() };
        assert(r@ =~= Seq::<UserView>::empty());
        r
    }

    fn find(&self, who: &Identity) -> (r: Option<usize>)
        requires
            distinct_principals(self@),
        ensures
            match r {
                None => !is_registered(self@, who@),
                Some(i) => is_registered(self@, who@) && i == user_index(self@, who@) && i
                    < self.users@.len(),
            },
    {
        let mut i: usize = 0;
        while i < self.users.len()
            invariant
                distinct_principals(self@),
                0 <= i <= self.users@.len(),
                forall|j: int| 0 <= j < i ==> self.users@[j].principal@ != who@,
            decreases self.users@.len() - i,
        {
            if self.users[i].principal.same(who) {
                assert(self@[i as int].principal == who@);
                let ghost k = user_index(self@, who@);
                assert(self@[k].principal == who@);
                return Some(i);
            }
            i = i + 1;
        }
        proof {
            if is_registered(self@, who@) {
                let k = user_index(self@, who@);
                assert(self.users@[k].principal@ == who@);
            }
        }
        None
    }

    /// Registers `caller` under `username`, with the license not yet accepted.
    pub fn register_user(&mut self, caller: Identity, username: String, is_seller: bool) -> (r:
        Result<(), UserError>)
        requires
            distinct_principals(old(self)@),
        ensures
            distinct_principals(final(self)@),
            is_registered(old(self)@, caller@) ==> r == Err::<(), UserError>(UserError::AlreadyRegistered)
                && final(self)@ == old(self)@,
            !is_registered(old(self)@, caller@) ==> r == Ok::<(), UserError>(()) && final(self)@
                == old(self)@.push(
                UserView { principal: caller@, username: username@, is_seller, license_agreed: false },
            ),
    {
        match self.find(&caller) {
            Some(_) => Err(UserError::AlreadyRegistered),
            None => {
                let user = User { principal: caller, username, is_seller, license_agreed: false };
                self.users.push(user);
                assert(self@ =~= old(self)@.push(user@));
                Ok(())
            },
        }
    }

    /// Records that `caller` accepted the license.
    pub fn agree_license(&mut self, caller: &Identity) -> (r: Result<(), UserError>)
        requires
            distinct_principals(old(self)@),
        ensures
            distinct_principals(final(self)@),
            !is_registered(old(self)@, caller@) ==> r == Err::<(), UserError>(UserError::NotRegistered)
                && final(self)@ == old(self)@,
            is_registered(old(self)@, caller@) ==> r == Ok::<(), UserError>(()) && final(self)@
                == old(self)@.update(
                user_index(old(self)@, caller@),
                UserView { license_agreed: true, ..old(self)@[user_index(old(self)@, caller@)] },
            ),
    {
        match self.find(caller) {
            None => Err(UserError::NotRegistered),
            Some(i) => {
                self.users[i].license_agreed = true;
                assert(self@ =~= old(self)@.update(i as int, self.users@[i as int]@));
                Ok(())
            },
        }
    }

    /// A copy of `caller`'s registration.
    pub fn authenticate_user(&self, caller: &Identity) -> (r: Result<User, UserError>)
        requires
            distinct_principals(self@),
        ensures
            match r {
                Ok(u) => is_registered(self@, caller@) && u@ == self@[user_index(self@, caller@)],
                Err(e) => !is_registered(self@, caller@) && e == UserError::NotRegistered,
            },
    {
        match self.find(caller) {
            None => Err(UserError::NotRegistered),
            Some(i) => Ok(self.users[i].duplicate()),
        }
    }

    /// Whether `caller` is registered and has accepted the license.
    pub fn has_agreed_license(&self, caller: &Identity) -> (r: bool)
        requires
            distinct_principals(self@),
        ensures
            r == (is_registered(self@, caller@) && self@[user_index(self@, caller@)].license_agreed),
    {
        match self.find(caller) {
            None => false,
            Some(i) => self.users[i].license_agreed,
        }
    }

    /// Copies of all registrations, in the order they were made.
    pub fn list_users(&self) -> (r: Vec<User>)
        ensures
            r@.map_values(|u: User| u@) == self@,
    {
        let mut r: Vec<User> = Vec::new();
        let mut i: usize = 0;
        while i < self.users.len()
            invariant
                0 <= i <= self.users@.len(),
                r@.len() == i,
                forall|j: int| 0 <= j < i ==> r@[j]@ == self.users@[j]@,
            decreases self.users@.len() - i,
        {
            r.push(self.users[i].duplicate());
            i = i + 1;
        }
        assert(r@.map_values(|u: User| u@) =~= self@);
        r
    }
}

} // verus!
