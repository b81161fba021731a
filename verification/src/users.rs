//! User accounts: an in-memory user store with unique usernames, first-user
//! bootstrap, and password authentication against stored SHA3-256 digests.
use vstd::prelude::*;

use crate::api_handlers::AuthError;
use crate::models::User;

verus! {

/// The 32-byte SHA3-256 digest of a string's bytes. The same characters give
/// the same digest on every machine.
pub uninterp spec fn sha3_256_digest(password: Seq<char>) -> Seq<u8>;

/// Relies on sha3::Sha3_256 through digest's `Digest::digest`: the returned
/// value is the 32-byte SHA3-256 digest of the input bytes, a function of
/// the input alone.
#[verifier::external_body]
fn sha3_digest(password: &str) -> (r: Vec<u8>)
    ensures
        r@ == sha3_256_digest(password@),
        r@.len() == 32,
{
    <sha3::Sha3_256 as sha3::Digest>::digest(password.as_bytes()).to_vec()
}

/// The lowercase hex digit for a value below sixteen.
pub open spec fn hex_char_of(n: u8) -> char {
    if n == 0 {
        '0'
    } else if n == 1 {
        '1'
    } else if n == 2 {
        '2'
    } else if n == 3 {
        '3'
    } else if n == 4 {
        '4'
    } else if n == 5 {
        '5'
    } else if n == 6 {
        '6'
    } else if n == 7 {
        '7'
    } else if n == 8 {
        '8'
    } else if n == 9 {
        '9'
    } else if n == 10 {
        'a'
    } else if n == 11 {
        'b'
    } else if n == 12 {
        'c'
    } else if n == 13 {
        'd'
    } else if n == 14 {
        'e'
    } else {
        'f'
    }
}

/// Lowercase hex encoding of a byte sequence: two digits per byte, high
/// nibble first.
pub open spec fn hex_of(data: Seq<u8>) -> Seq<char>
    decreases data.len(),
{
    if data.len() == 0 {
        Seq::empty()
    } else {
        hex_of(data.drop_last()).push(hex_char_of(data.last() / 16)).push(
            hex_char_of(data.last() % 16),
        )
    }
}

/// What the store holds for an account: the lowercase hex of the SHA3-256
/// digest of its password.
pub open spec fn spec_password_hash(password: Seq<char>) -> Seq<char> {
    hex_of(sha3_256_digest(password))
}

/// Hex encoding doubles the length.
pub proof fn lemma_hex_of_len(data: Seq<u8>)
    ensures
        hex_of(data).len() == 2 * data.len(),
    decreases data.len(),
{
    if data.len() > 0 {
        lemma_hex_of_len(data.drop_last());
    }
}

/// The lowercase hex digit, as executable code.
fn hex_char(n: u8) -> (r: char)
    requires
        n < 16,
    ensures
        r == hex_char_of(n),
{
    match n {
        0 => '0',
        1 => '1',
        2 => '2',
        3 => '3',
        4 => '4',
        5 => '5',
        6 => '6',
        7 => '7',
        8 => '8',
        9 => '9',
        10 => 'a',
        11 => 'b',
        12 => 'c',
        13 => 'd',
        14 => 'e',
        _ => 'f',
    }
}

/// Lowercase hex of the SHA3-256 digest of the given password: what the
/// store holds for an account with that password.
pub fn hash_password_hex(password: &str) -> (r: Vec<char>)
    ensures
        r@ == spec_password_hash(password@),
{
    let digest = sha3_digest(password);
    let ghost dg = digest@;
    let mut out: Vec<char> = Vec::new();
    let mut i: usize = 0;
    proof {
        lemma_hex_of_len(dg);
        assert(dg.take(0) =~= Seq::<u8>::empty());
        assert(out@ =~= hex_of(dg.take(0)));
    }
    while i < digest.len()
        invariant
            i <= dg.len(),
            dg == digest@,
            out@ == hex_of(dg.take(i as int)),
        decreases dg.len() - i,
    {
        let b = digest[i];
        out.push(hex_char(b / 16));
        out.push(hex_char(b % 16));
        proof {
            assert(dg.take(i + 1).drop_last() =~= dg.take(i as int));
            assert(dg.take(i + 1).last() == dg[i as int]);
        }
        i = i + 1;
    }
    proof {
        assert(dg.take(dg.len() as int) =~= dg);
    }
    out
}

/// Whether a stored password hash matches the hash of a supplied password.
pub fn password_matches(stored: &str, supplied: &str) -> (r: bool)
    ensures
        r == (stored@ == spec_password_hash(supplied@)),
{
    let expected = hash_password_hex(supplied);
    let n = stored.unicode_len();
    if n != expected.len() {
        proof {
            assert(stored@.len() != spec_password_hash(supplied@).len());
        }
        return false;
    }
    let mut i: usize = 0;
    while i < n
        invariant
            i <= n,
            n == stored@.len(),
            n == expected@.len(),
            expected@ == spec_password_hash(supplied@),
            forall|idx: int| 0 <= idx < i ==> stored@[idx] == expected@[idx],
        decreases n - i,
    {
        if stored.get_char(i) != expected[i] {
            return false;
        }
        i = i + 1;
    }
    proof {
        assert(stored@ =~= expected@);
    }
    true
}

/// Abstract value of an account list: the username and stored password hash
/// of each account, in order.
pub open spec fn user_models(users: Seq<User>) -> Seq<(Seq<char>, Seq<char>)> {
    users.map_values(|u: User| (u.username@, u.password@))
}

/// An in-memory user store: the accounts, in creation order, with unique
/// usernames.
pub struct UserStore {
    users: Vec<User>,
}

impl UserStore {
    /// The accounts, in creation order.
    pub closed spec fn accounts(self) -> Seq<(Seq<char>, Seq<char>)> {
        user_models(self.users@)
    }

    /// Usernames are unique.
    pub open spec fn wf(self) -> bool {
        forall|i: int, j: int|
            0 <= i < j < self.accounts().len() ==> self.accounts()[i].0 != self.accounts()[j].0
    }

    /// Whether an account with this username exists.
    pub open spec fn contains_user(self, name: Seq<char>) -> bool {
        exists|i: int| 0 <= i < self.accounts().len() && self.accounts()[i].0 == name
    }

    /// The stored password hash of the account with this username.
    pub open spec fn password_of(self, name: Seq<char>) -> Seq<char> {
        self.accounts()[choose|i: int|
            0 <= i < self.accounts().len() && self.accounts()[i].0 == name].1
    }

    /// An empty store.
    pub fn new() -> (r: UserStore)
        ensures
            r.wf(),
            r.accounts() == Seq::<(Seq<char>, Seq<char>)>::empty(),
    {
        let r = UserStore { users: Vec::new() };
        proof {
            assert(r.accounts() =~= Seq::<(Seq<char>, Seq<char>)>::empty());
        }
        r
    }

    /// How many accounts exist.
    pub fn number_of_users(&self) -> (r: usize)
        ensures
            r == self.accounts().len(),
    {
        self.users.len()
    }

    /// The index of the account with this username, if any.
    fn find_user(&self, username: &str) -> (r: Option<usize>)
        ensures
            match r {
                Some(i) => i < self.accounts().len() && self.accounts()[i as int].0 == username@,
                None => !self.contains_user(username@),
            },
    {
        let mut i: usize = 0;
        while i < self.users.len()
            invariant
                i <= self.users@.len(),
                forall|j: int| 0 <= j < i ==> self.accounts()[j].0 != username@,
            decreases self.users@.len() - i,
        {
            if str_eq(self.users[i].username.as_str(), username) {
                return Some(i);
            }
            i = i + 1;
        }
        None
    }

    /// The account with this username, if any.
    pub fn get_user(&self, username: &str) -> (r: Option<User>)
        requires
            self.wf(),
        ensures
            match r {
                Some(u) => self.contains_user(username@) && u.username@ == username@ && u.password@
                    == self.password_of(username@),
                None => !self.contains_user(username@),
            },
    {
        match self.find_user(username) {
            Some(i) => {
                proof {
                    lemma_unique_user_index(*self, i as int, username@);
                }
                Some(self.users[i].clone())
            },
            None => None,
        }
    }

    /// All accounts, in creation order.
    pub fn get_users(&self) -> (r: Vec<User>)
        ensures
            user_models(r@) == self.accounts(),
    {
        let mut r: Vec<User> = Vec::new();
        let mut i: usize = 0;
        proof {
            assert(user_models(r@) =~= self.accounts().take(0));
        }
        while i < self.users.len()
            invariant
                i <= self.users@.len(),
                user_models(r@) == self.accounts().take(i as int),
            decreases self.users@.len() - i,
        {
            let ghost prior = r@;
            r.push(self.users[i].clone());
            proof {
                assert(user_models(r@) =~= user_models(prior).push(
                    (self.users@[i as int].username@, self.users@[i as int].password@),
                ));
                assert(self.accounts().take(i + 1) =~= self.accounts().take(i as int).push(
                    self.accounts()[i as int],
                ));
            }
            i = i + 1;
        }
        proof {
            assert(self.accounts().take(self.users@.len() as int) =~= self.accounts());
        }
        r
    }

    /// Add an account. An existing username is left untouched.
    pub fn create_user(&mut self, user: &User)
        requires
            old(self).wf(),
        ensures
            final(self).wf(),
            old(self).contains_user(user.username@) ==> final(self).accounts() == old(
                self,
            ).accounts(),
            !old(self).contains_user(user.username@) ==> final(self).accounts() == old(
                self,
            ).accounts().push((user.username@, user.password@)),
    {
        match self.find_user(user.username.as_str()) {
            Some(_) => {},
            None => {
                let ghost prior = self.users@;
                let ghost prior_acc = self.accounts();
                self.users.push(user.clone());
                proof {
                    assert(self.accounts() =~= prior_acc.push((user.username@, user.password@)));
                    assert forall|i: int|
                        0 <= i < prior_acc.len() implies prior_acc[i].0 != user.username@ by {
                        if prior_acc[i].0 == user.username@ {
                            assert(old(self).contains_user(user.username@));
                        }
                    };
                }
            },
        }
    }

    /// Replace the stored password hash of an existing account; a missing
    /// username changes nothing.
    pub fn update_user(&mut self, user: &User)
        requires
            old(self).wf(),
        ensures
            final(self).wf(),
            !old(self).contains_user(user.username@) ==> final(self).accounts() == old(
                self,
            ).accounts(),
            old(self).contains_user(user.username@) ==> exists|i: int|
                0 <= i < old(self).accounts().len() && old(self).accounts()[i].0 == user.username@
                    && final(self).accounts() == old(self).accounts().update(
                    i,
                    (user.username@, user.password@),
                ),
    {
        match self.find_user(user.username.as_str()) {
            Some(i) => {
                let ghost prior = self.accounts();
                let ghost idx = i as int;
                let mut existing = self.users.remove(i);
                existing.password = user.password.clone();
                self.users.insert(i, existing);
                proof {
                    assert(self.accounts() =~= prior.update(
                        idx,
                        (user.username@, user.password@),
                    ));
                    assert(forall|j: int|
                        0 <= j < self.accounts().len() ==> self.accounts()[j].0 == prior[j].0);
                }
            },
            None => {},
        }
    }

    /// Remove the account with this username; a missing username changes
    /// nothing.
    pub fn delete_user(&mut self, username: &str)
        requires
            old(self).wf(),
        ensures
            final(self).wf(),
            !final(self).contains_user(username@),
            !old(self).contains_user(username@) ==> final(self).accounts() == old(self).accounts(),
            old(self).contains_user(username@) ==> exists|i: int|
                0 <= i < old(self).accounts().len() && old(self).accounts()[i].0 == username@
                    && final(self).accounts() == old(self).accounts().remove(i),
    {
        match self.find_user(username) {
            Some(i) => {
                let ghost prior = self.accounts();
                let ghost idx = i as int;
                proof {
                    lemma_unique_user_index(*self, idx, username@);
                }
                self.users.remove(i);
                proof {
                    assert(self.accounts() =~= prior.remove(idx));
                    assert(forall|j: int|
                        0 <= j < self.accounts().len() ==> self.accounts()[j] == if j < idx {
                            prior[j]
                        } else {
                            prior[j + 1]
                        });
                }
            },
            None => {},
        }
    }
}

/// In a well-formed store, only the found index carries the username.
proof fn lemma_unique_user_index(store: UserStore, i: int, name: Seq<char>)
    requires
        store.wf(),
        0 <= i < store.accounts().len(),
        store.accounts()[i].0 == name,
    ensures
        forall|j: int|
            0 <= j < store.accounts().len() && store.accounts()[j].0 == name ==> j == i,
        store.contains_user(name),
        store.password_of(name) == store.accounts()[i].1,
{
}

/// Whether two strings hold the same characters.
pub fn str_eq(a: &str, b: &str) -> (r: bool)
    ensures
        r == (a@ == b@),
{
    let n = a.unicode_len();
    if n != b.unicode_len() {
        return false;
    }
    let mut i: usize = 0;
    while i < n
        invariant
            i <= n,
            n == a@.len(),
            n == b@.len(),
            forall|idx: int| 0 <= idx < i ==> a@[idx] == b@[idx],
        decreases n - i,
    {
        if a.get_char(i) != b.get_char(i) {
            return false;
        }
        i = i + 1;
    }
    proof {
        assert(a@ =~= b@);
    }
    true
}

/// Create the very first account: the administrator handed in is stored only
/// when no account exists yet.
pub fn init_user(store: &mut UserStore, admin: &User)
    requires
        old(store).wf(),
    ensures
        final(store).wf(),
        old(store).accounts().len() != 0 ==> final(store).accounts() == old(store).accounts(),
        old(store).accounts().len() == 0 ==> final(store).accounts() == seq![
            (admin.username@, admin.password@),
        ],
{
    let number_of_users = store.number_of_users();
    if number_of_users != 0 {
        return ;
    }
    let ghost prior = store.accounts();
    store.create_user(admin);
    proof {
        assert(prior.push((admin.username@, admin.password@)) =~= seq![
            (admin.username@, admin.password@),
        ]);
    }
}

/// Authenticate a user: look the username up, hash the supplied password,
/// and compare against the stored hash.
///
/// Comes back `Err(UserMissing)` exactly when no such account exists,
/// `Err(InccorectPassword)` exactly when the account exists but the supplied
/// password's hash differs from the stored one, and otherwise `Ok` with the
/// stored account.
pub fn auth_user(user: &User, store: &UserStore) -> (r: Result<User, AuthError>)
    requires
        store.wf(),
    ensures
        !store.contains_user(user.username@) <==> r == Err::<User, AuthError>(
            AuthError::UserMissing,
        ),
        store.contains_user(user.username@) && store.password_of(user.username@)
            != spec_password_hash(user.password@) <==> r == Err::<User, AuthError>(
            AuthError::InccorectPassword,
        ),
        r matches Ok(db_user) ==> store.contains_user(user.username@) && db_user.username@
            == user.username@ && db_user.password@ == store.password_of(user.username@)
            && db_user.password@ == spec_password_hash(user.password@),
{
    let db_user = match store.get_user(user.username.as_str()) {
        Some(u) => u,
        None => {
            return Err(AuthError::UserMissing);
        },
    };
    if password_matches(db_user.password.as_str(), user.password.as_str()) {
        Ok(db_user)
    } else {
        Err(AuthError::InccorectPassword)
    }
}

} // verus!
