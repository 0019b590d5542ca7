//! Credential store and the signup / login decisions.
//!
//! The store keeps one record per user — id, username, password hash — with
//! usernames unique. Signup refuses a taken username with `Conflict` and
//! writes nothing in that case; otherwise it salts and hashes the password
//! and appends a fresh record. Login answers `NotFound` for an unknown
//! username, `Unauthorized` when the password does not check out against the
//! stored hash, and the user's id otherwise. Hashing and checking are the
//! work of an outside password-hashing library; what it accepts is named by
//! `argon2_verifies`, and every decision here is stated over that name.

use crate::table::{has_key, keys_unique, lemma_key_at, lemma_push_row, value_of};
use argon2::password_hash::{PasswordHash, PasswordHasher, PasswordVerifier, SaltString};
use rand::rngs::OsRng;
use vstd::prelude::*;
use vstd::utf8::encode_utf8;

verus! {

/// Whether the password-hashing library accepts `password` against the PHC
/// hash string `hash`: a function of the two strings alone, since the salt
/// and parameters the check recomputes with are part of `hash`.
pub uninterp spec fn argon2_verifies(password: Seq<char>, hash: Seq<char>) -> bool;

/// Relies on argon2's `Argon2::hash_password` over a fresh salt from rand's
/// `OsRng`, encoded with `to_string`: a PHC string it produces for
/// `password` is accepted by `Argon2::verify_password` for that same
/// password, which recomputes the hash from the salt and parameters carried
/// inside the string. With the default parameters and a generated salt the
/// only refusal is a password over 2^32 - 1 bytes, so a hash is owed for
/// any shorter one.
#[verifier::external_body]
fn hash_password(password: &String) -> (r: Option<String>)
    ensures
        r matches Some(h) ==> argon2_verifies(password@, h@),
        encode_utf8(password@).len() <= 0xFFFFFFFF ==> r is Some,
{
    let salt = SaltString::generate(&mut OsRng);
    match argon2::Argon2::default().hash_password(password.as_bytes(), &salt) {
        Ok(h) => Some(h.to_string()),
        Err(_) => None,
    }
}

/// Relies on argon2's `PasswordHash::new` and `Argon2::verify_password`: the
/// check parses `hash` as a PHC string, recomputes the hash of `password`
/// under the salt and parameters found there, and compares — deterministic
/// in the two strings, with a malformed `hash` accepted for no password.
#[verifier::external_body]
fn check_password(password: &String, hash: &String) -> (r: bool)
    ensures
        r == argon2_verifies(password@, hash@),
{
    match PasswordHash::new(hash.as_str()) {
        Ok(parsed) => argon2::Argon2::default().verify_password(
            password.as_bytes(),
            &parsed,
        ).is_ok(),
        Err(_) => false,
    }
}

/// Relies on uuid's `Uuid::new_v4` and its `Display` form: the hyphenated
/// text of a version-4 UUID is 36 characters. Nothing else is assumed of a
/// randomly drawn id.
#[verifier::external_body]
fn new_user_id() -> (r: String)
    ensures
        r@.len() == 36,
{
    uuid::Uuid::new_v4().to_string()
}

/// One stored account: stable id, unique username, password hash.
pub struct UserRecord {
    pub id: String,
    pub username: String,
    pub password_hash: String,
}

/// Why signup or login refused.
#[derive(Clone, Copy, PartialEq, Eq, Structural, Debug)]
pub enum AuthError {
    /// Signup: the username is already taken.
    Conflict,
    /// Login: no account has that username.
    NotFound,
    /// Login: the password does not check out against the stored hash.
    Unauthorized,
    /// Signup: the password-hashing library refused to produce a hash.
    HashFailure,
    /// The freshly drawn id collided with a stored one; safe to retry.
    IdCollision,
}

/// No two rows share an id: ids are assigned once and never reused within
/// the store.
pub open spec fn ids_unique(rows: Seq<(Seq<char>, (Seq<char>, Seq<char>))>) -> bool {
    forall|i: int, j: int|
        0 <= i < rows.len() && 0 <= j < rows.len() && i != j ==> (#[trigger] rows[i]).1.0 != (
        #[trigger] rows[j]).1.0
}

/// Some row carries the id.
pub open spec fn id_taken(rows: Seq<(Seq<char>, (Seq<char>, Seq<char>))>, id: Seq<char>) -> bool {
    exists|i: int| 0 <= i < rows.len() && (#[trigger] rows[i]).1.0 == id
}

/// The account records, keyed by username.
pub struct CredentialStore {
    users: Vec<UserRecord>,
}

impl CredentialStore {
    /// The account rows, abstractly: each record as its username with the
    /// stored id and hash.
    pub closed spec fn rows(&self) -> Seq<(Seq<char>, (Seq<char>, Seq<char>))> {
        self.users@.map(|i: int, r: UserRecord| (r.username@, (r.id@, r.password_hash@)))
    }

    /// At most one account exists per username, and no id is ever shared.
    pub open spec fn valid(&self) -> bool {
        keys_unique(self.rows()) && ids_unique(self.rows())
    }

    /// Whether an account with username `n` exists.
    pub open spec fn has_username(&self, n: Seq<char>) -> bool {
        has_key(self.rows(), n)
    }

    /// Whether some account already holds the id.
    pub open spec fn has_id(&self, id: Seq<char>) -> bool {
        id_taken(self.rows(), id)
    }

    /// The id of the account named `n` (meaningful only under
    /// `has_username`).
    pub open spec fn id_of(&self, n: Seq<char>) -> Seq<char> {
        value_of(self.rows(), n).0
    }

    /// The stored password hash of the account named `n` (meaningful only
    /// under `has_username`).
    pub open spec fn hash_of(&self, n: Seq<char>) -> Seq<char> {
        value_of(self.rows(), n).1
    }

    /// A store with no accounts yet.
    pub fn new() -> (s: CredentialStore)
        ensures
            s.valid(),
            forall|n: Seq<char>| !s.has_username(n),
    {
        CredentialStore { users: Vec::new() }
    }

    /// The index of the account named `username`, if one exists.
    fn find_user(&self, username: &String) -> (r: Option<usize>)
        ensures
            match r {
                Some(i) => i < self.rows().len() && self.rows()[i as int].0 == username@,
                None => !self.has_username(username@),
            },
    {
        let mut i: usize = 0;
        while i < self.users.len()
            invariant
                i <= self.users.len(),
                forall|j: int| 0 <= j < i ==> (#[trigger] self.rows()[j]).0 != username@,
            decreases self.users.len() - i,
        {
            if self.users[i].username.eq(username) {
                return Some(i);
            }
            i = i + 1;
        }
        None
    }

    /// The index of the account holding `id`, if one exists.
    fn find_id(&self, id: &String) -> (r: Option<usize>)
        ensures
            match r {
                Some(i) => i < self.rows().len() && self.rows()[i as int].1.0 == id@,
                None => !self.has_id(id@),
            },
    {
        let mut i: usize = 0;
        while i < self.users.len()
            invariant
                i <= self.users.len(),
                forall|j: int| 0 <= j < i ==> (#[trigger] self.rows()[j]).1.0 != id@,
            decreases self.users.len() - i,
        {
            if self.users[i].id.eq(id) {
                return Some(i);
            }
            i = i + 1;
        }
        None
    }

    /// The stored record for `username`: its id and password hash, or
    /// nothing if no such account exists.
    pub fn credentials_of(&self, username: &String) -> (r: Option<(String, String)>)
        requires
            self.valid(),
        ensures
            match r {
                Some(p) => self.has_username(username@) && p.0@ == self.id_of(username@) && p.1@
                    == self.hash_of(username@),
                None => !self.has_username(username@),
            },
    {
        match self.find_user(username) {
            Some(i) => {
                proof {
                    lemma_key_at(self.rows(), i as int);
                }
                Some((self.users[i].id.clone(), self.users[i].password_hash.clone()))
            },
            None => None,
        }
    }

    /// Create an account. A taken username is refused with `Conflict` before
    /// anything is hashed, and the store is left untouched; otherwise a
    /// fresh id is drawn, the password is salted and hashed, and the record
    /// is appended. For an available username and a password the hashing
    /// library can take (anything up to 2^32 - 1 bytes), the only possible
    /// refusal is a collision of the randomly drawn id with a stored one —
    /// reported as `IdCollision`, store untouched, safe to retry.
    pub fn signup(&mut self, username: &String, password: &String) -> (r: Result<
        String,
        AuthError,
    >)
        requires
            old(self).valid(),
        ensures
            final(self).valid(),
            old(self).has_username(username@) ==> r == Err::<String, AuthError>(AuthError::Conflict)
                && *final(self) == *old(self),
            !old(self).has_username(username@) ==> match r {
                Ok(id) => signup_step(*old(self), *final(self), username@, password@, id@)
                    && id@.len() == 36,
                Err(e) => {
                    &&& (e == AuthError::HashFailure || e == AuthError::IdCollision)
                    &&& *final(self) == *old(self)
                    &&& e == AuthError::HashFailure ==> encode_utf8(password@).len() > 0xFFFFFFFF
                },
            },
    {
        match self.find_user(username) {
            Some(i) => {
                proof {
                    lemma_key_at(self.rows(), i as int);
                }
                Err(AuthError::Conflict)
            },
            None => {
                match hash_password(password) {
                    None => Err(AuthError::HashFailure),
                    Some(h) => {
                        let id = new_user_id();
                        match self.find_id(&id) {
                            Some(_) => Err(AuthError::IdCollision),
                            None => {
                                self.users.push(
                                    UserRecord {
                                        id: id.clone(),
                                        username: username.clone(),
                                        password_hash: h,
                                    },
                                );
                                proof {
                                    assert(self.rows() =~= old(self).rows().push(
                                        (username@, (id@, h@)),
                                    ));
                                    lemma_push_row(
                                        old(self).rows(),
                                        self.rows(),
                                        username@,
                                        (id@, h@),
                                    );
                                    lemma_push_fresh_id(
                                        old(self).rows(),
                                        self.rows(),
                                        (username@, (id@, h@)),
                                    );
                                }
                                Ok(id)
                            },
                        }
                    },
                }
            },
        }
    }

    /// Rebuild one account from the external relational store: insert the
    /// record as it was persisted, hash and all. The username and the id
    /// must both be unseen; otherwise `Conflict` or `IdCollision` is
    /// returned and the store is left untouched.
    pub fn restore_account(
        &mut self,
        id: &String,
        username: &String,
        password_hash: &String,
    ) -> (r: Result<(), AuthError>)
        requires
            old(self).valid(),
        ensures
            final(self).valid(),
            old(self).has_username(username@) ==> r == Err::<(), AuthError>(AuthError::Conflict)
                && *final(self) == *old(self),
            !old(self).has_username(username@) && old(self).has_id(id@) ==> r == Err::<
                (),
                AuthError,
            >(AuthError::IdCollision) && *final(self) == *old(self),
            !old(self).has_username(username@) && !old(self).has_id(id@) ==> r == Ok::<
                (),
                AuthError,
            >(()) && account_added(*old(self), *final(self), username@, id@)
                && final(self).hash_of(username@) == password_hash@,
    {
        match self.find_user(username) {
            Some(i) => {
                proof {
                    lemma_key_at(self.rows(), i as int);
                }
                Err(AuthError::Conflict)
            },
            None => {
                match self.find_id(id) {
                    Some(_) => Err(AuthError::IdCollision),
                    None => {
                        self.users.push(
                            UserRecord {
                                id: id.clone(),
                                username: username.clone(),
                                password_hash: password_hash.clone(),
                            },
                        );
                        proof {
                            assert(self.rows() =~= old(self).rows().push(
                                (username@, (id@, password_hash@)),
                            ));
                            lemma_push_row(
                                old(self).rows(),
                                self.rows(),
                                username@,
                                (id@, password_hash@),
                            );
                            lemma_push_fresh_id(
                                old(self).rows(),
                                self.rows(),
                                (username@, (id@, password_hash@)),
                            );
                        }
                        Ok(())
                    },
                }
            },
        }
    }

    /// Authenticate. An unknown username answers `NotFound`; a known one
    /// answers the account id exactly when the password checks out against
    /// the stored hash, and `Unauthorized` otherwise.
    pub fn login(&self, username: &String, password: &String) -> (r: Result<String, AuthError>)
        requires
            self.valid(),
        ensures
            match r {
                Ok(id) => self.has_username(username@) && id@ == self.id_of(username@)
                    && argon2_verifies(password@, self.hash_of(username@)),
                Err(e) => {
                    ||| (e == AuthError::NotFound && !self.has_username(username@))
                    ||| (e == AuthError::Unauthorized && self.has_username(username@)
                        && !argon2_verifies(password@, self.hash_of(username@)))
                },
            },
    {
        match self.find_user(username) {
            None => Err(AuthError::NotFound),
            Some(i) => {
                proof {
                    lemma_key_at(self.rows(), i as int);
                }
                if check_password(password, &self.users[i].password_hash) {
                    Ok(self.users[i].id.clone())
                } else {
                    Err(AuthError::Unauthorized)
                }
            },
        }
    }
}

/// One record was appended: the new username is bound to an id no stored
/// account held before, and every other username is bound as before.
pub open spec fn account_added(
    pre: CredentialStore,
    post: CredentialStore,
    username: Seq<char>,
    id: Seq<char>,
) -> bool {
    &&& post.has_username(username)
    &&& post.id_of(username) == id
    &&& !pre.has_id(id)
    &&& forall|n: Seq<char>| n != username ==> post.has_username(n) == pre.has_username(n)
    &&& forall|n: Seq<char>|
        n != username && pre.has_username(n) ==> post.id_of(n) == pre.id_of(n) && post.hash_of(n)
            == pre.hash_of(n)
}

/// How a successful signup changes the store: one record is added, binding
/// the new username to the fresh returned id and to a hash the
/// password-hashing library accepts for the given password.
pub open spec fn signup_step(
    pre: CredentialStore,
    post: CredentialStore,
    username: Seq<char>,
    password: Seq<char>,
    id: Seq<char>,
) -> bool {
    &&& account_added(pre, post, username, id)
    &&& argon2_verifies(password, post.hash_of(username))
}

/// Appending a row whose id no earlier row holds keeps ids pairwise
/// distinct.
proof fn lemma_push_fresh_id(
    pre: Seq<(Seq<char>, (Seq<char>, Seq<char>))>,
    post: Seq<(Seq<char>, (Seq<char>, Seq<char>))>,
    row: (Seq<char>, (Seq<char>, Seq<char>)),
)
    requires
        ids_unique(pre),
        !id_taken(pre, row.1.0),
        post == pre.push(row),
    ensures
        ids_unique(post),
{
    let n = pre.len() as int;
    assert forall|a: int, b: int|
        0 <= a < post.len() && 0 <= b < post.len() && a != b implies (#[trigger] post[a]).1.0 != (
    #[trigger] post[b]).1.0 by {
        if a < n && b < n {
            assert(post[a] == pre[a]);
            assert(post[b] == pre[b]);
        } else if a == n {
            assert(post[b] == pre[b]);
            assert(pre[b].1.0 != row.1.0);
        } else {
            assert(post[a] == pre[a]);
            assert(pre[a].1.0 != row.1.0);
        }
    }
}

} // verus!
