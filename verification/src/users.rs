use crate::contract::{Contract, ContractView};
use crate::error::Error;
use crate::models::{Role, User, UserView};
use crate::progress::transition;
use crate::seqs::{first_where, lemma_deep_push};
use crate::utils::user_clashes;
use crate::consistency::lemma_same_links_stay_consistent;
use crate::rows::lemma_same_rows_stay_consistent;
use vstd::prelude::*;

verus! {

impl Contract {
    /// Registers the caller as a user with the plain user role. No other user may hold the
    /// caller's account, the username or the e-mail address.
    pub fn create_user(
        &mut self,
        caller: String,
        name: String,
        username: String,
        phone: String,
        email: String,
        by_google: bool,
        picture: String,
        created_at: u64,
    ) -> (r: Result<(), Error>)
        ensures
            transition(
                r,
                old(self).deep_view(),
                final(self).deep_view(),
                if first_where(old(self).deep_view().users, user_clashes(caller@, username@, email@))
                    is Some {
                    Err(Error::AlreadyExists)
                } else if old(self).user_count == u64::MAX {
                    Err(Error::CapacityExceeded)
                } else {
                    Ok(
                        ContractView {
                            users: old(self).deep_view().users.push(
                                UserView {
                                    account_id: caller@,
                                    name: name@,
                                    username: username@,
                                    email: email@,
                                    phone: phone@,
                                    role: Role::User,
                                    by_google,
                                    certifications: None,
                                    picture: picture@,
                                    created_at,
                                    updated_at: created_at,
                                },
                            ),
                            user_count: (old(self).user_count + 1) as u64,
                            ..old(self).deep_view()
                        },
                    )
                },
            ),
            old(self).deep_view().consistent() ==> final(self).deep_view().consistent(),
            old(self).deep_view().sound() ==> final(self).deep_view().sound(),
    {
        if self.user_exists(caller.clone(), username.clone(), email.clone()) {
            return Err(Error::AlreadyExists);
        }
        if self.user_count == u64::MAX {
            return Err(Error::CapacityExceeded);
        }
        let user = User {
            account_id: caller,
            name,
            username,
            email,
            phone,
            role: Role::User,
            by_google,
            certifications: None,
            picture,
            created_at,
            updated_at: created_at,
        };
        let ghost before = self.users;
        self.users.push(user);
        self.user_count = self.user_count + 1;
        proof {
            lemma_deep_push(before, self.users, user);
            if old(self).deep_view().consistent() {
                lemma_same_links_stay_consistent(old(self).deep_view(), self.deep_view());
            }
            if old(self).deep_view().sound() {
                lemma_same_rows_stay_consistent(old(self).deep_view(), self.deep_view());
            }
        }
        Ok(())
    }

    /// Changes the profile of a user. The caller must be that user or an administrator.
    pub fn update_user(
        &mut self,
        caller: String,
        account_id: String,
        name: String,
        username: String,
        phone: String,
        email: String,
        by_google: bool,
        picture: String,
        updated_at: u64,
    ) -> (r: Result<(), Error>)
        ensures
            transition(
                r,
                old(self).deep_view(),
                final(self).deep_view(),
                match old(self).deep_view().user_pos(account_id@) {
                    None => Err(Error::NotFound),
                    Some(u) => if caller@ != account_id@ && !old(self).deep_view().is_admin(
                        caller@,
                    ) {
                        Err(Error::Unauthorized)
                    } else {
                        Ok(
                            ContractView {
                                users: old(self).deep_view().users.update(
                                    u,
                                    UserView {
                                        name: name@,
                                        username: username@,
                                        email: email@,
                                        phone: phone@,
                                        by_google,
                                        picture: picture@,
                                        updated_at,
                                        ..old(self).deep_view().users[u]
                                    },
                                ),
                                ..old(self).deep_view()
                            },
                        )
                    },
                },
            ),
            old(self).deep_view().consistent() ==> final(self).deep_view().consistent(),
            old(self).deep_view().sound() ==> final(self).deep_view().sound(),
    {
        let u = match self.user_index(&account_id) {
            Some(u) => u,
            None => {
                return Err(Error::NotFound);
            },
        };
        if caller != account_id && !self.is_admin(caller) {
            return Err(Error::Unauthorized);
        }
        self.users[u].name = name;
        self.users[u].username = username;
        self.users[u].email = email;
        self.users[u].phone = phone;
        self.users[u].by_google = by_google;
        self.users[u].picture = picture;
        self.users[u].updated_at = updated_at;
        proof {
            let st = old(self).deep_view();
            assert(self.users.deep_view() =~= st.users.update(
                u as int,
                UserView {
                    name: name@,
                    username: username@,
                    email: email@,
                    phone: phone@,
                    by_google,
                    picture: picture@,
                    updated_at,
                    ..st.users[u as int]
                },
            ));
            if old(self).deep_view().consistent() {
                lemma_same_links_stay_consistent(old(self).deep_view(), self.deep_view());
            }
            if old(self).deep_view().sound() {
                lemma_same_rows_stay_consistent(old(self).deep_view(), self.deep_view());
            }
        }
        Ok(())
    }

    /// Changes the caller's own name, phone number and picture.
    pub fn update_user_info(
        &mut self,
        caller: String,
        name: String,
        phone: String,
        picture: String,
        updated_at: u64,
    ) -> (r: Result<(), Error>)
        ensures
            transition(
                r,
                old(self).deep_view(),
                final(self).deep_view(),
                match old(self).deep_view().user_pos(caller@) {
                    None => Err(Error::NotFound),
                    Some(u) => Ok(
                        ContractView {
                            users: old(self).deep_view().users.update(
                                u,
                                UserView {
                                    name: name@,
                                    phone: phone@,
                                    picture: picture@,
                                    updated_at,
                                    ..old(self).deep_view().users[u]
                                },
                            ),
                            ..old(self).deep_view()
                        },
                    ),
                },
            ),
            old(self).deep_view().consistent() ==> final(self).deep_view().consistent(),
            old(self).deep_view().sound() ==> final(self).deep_view().sound(),
    {
        let u = match self.user_index(&caller) {
            Some(u) => u,
            None => {
                return Err(Error::NotFound);
            },
        };
        self.users[u].name = name;
        self.users[u].phone = phone;
        self.users[u].picture = picture;
        self.users[u].updated_at = updated_at;
        proof {
            let st = old(self).deep_view();
            assert(self.users.deep_view() =~= st.users.update(
                u as int,
                UserView { name: name@, phone: phone@, picture: picture@, updated_at, ..st.users[u as int] },
            ));
            if old(self).deep_view().consistent() {
                lemma_same_links_stay_consistent(old(self).deep_view(), self.deep_view());
            }
            if old(self).deep_view().sound() {
                lemma_same_rows_stay_consistent(old(self).deep_view(), self.deep_view());
            }
        }
        Ok(())
    }
}

} // verus!
