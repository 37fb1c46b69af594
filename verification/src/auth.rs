//! The authentication service: salted password hashing, credential lookup,
//! registration with duplicate rejection, and issuance of signed, time-bounded
//! bearer tokens.

use vstd::prelude::*;

use crate::errors::ApiError;

use argon2::Argon2;
use argon2::PasswordHasher;
use argon2::PasswordVerifier;
use argon2::password_hash::phc;

verus! {

/// A credential row: a username and, once stored, the self-describing
/// password-hash record for that user. On the way in (a registration or login
/// request) the `password` field carries the plaintext password instead.
#[derive(Debug)]
pub struct User {
    pub name: String,
    pub password: String,
}

/// How long an issued token lives, in seconds: one day.
pub const TOKEN_LIFETIME_SECS: i64 = 86400;

/// Whether a stored string is a well-formed password-hash record; names the
/// success of `phc::PasswordHash::new`.
pub uninterp spec fn hash_parses(hash: Seq<char>) -> bool;

/// Whether a password matches a password-hash record; names the result of
/// argon2's `PasswordVerifier::verify_password`.
pub uninterp spec fn hash_verifies(password: Seq<char>, hash: Seq<char>) -> bool;

/// The compact signed token for a subject, an expiry timestamp and a signing
/// secret; names the result of `jsonwebtoken::encode` under its default
/// header. This is a function of its arguments only under the crate's default
/// crypto provider (the `rust_crypto` feature, the only one enabled here)
/// with a fixed claim order; a process that installs a custom provider before
/// first use is outside this assumption.
pub uninterp spec fn jwt_of(subject: Seq<char>, expiry: u64, secret: Seq<u8>) -> Seq<char>;

/// Relies on `phc::PasswordHash::new` of the password-hash crate: whether a
/// stored string parses as a well-formed hash record is a function of the
/// string alone.
#[verifier::external_body]
fn parse_hash_ok(hash: &str) -> (r: bool)
    ensures
        r == hash_parses(hash@),
{
    phc::PasswordHash::new(hash).is_ok()
}

/// Relies on argon2's `PasswordVerifier::<str>::verify_password`: it parses
/// the record, recomputes the hash of the password under the record's own
/// parameters and salt, and succeeds exactly when the outputs match — a
/// function of the password and the record alone.
#[verifier::external_body]
fn verify_hash(password: &str, hash: &str) -> (r: bool)
    ensures
        r == hash_verifies(password@, hash@),
{
    let argon2 = Argon2::default();
    PasswordVerifier::<str>::verify_password(&argon2, password.as_bytes(), hash).is_ok()
}

/// Relies on argon2's `PasswordHasher::hash_password`: it draws a fresh random
/// salt, so the record differs from call to call; every record it returns is
/// well formed and verifies against the hashed password (the crate's own
/// documented round trip). `None` is a salt-generation or hashing failure.
#[verifier::external_body]
fn hash_password(password: &str) -> (r: Option<String>)
    ensures
        r matches Some(h) ==> hash_parses(h@) && hash_verifies(password@, h@),
{
    let argon2 = Argon2::default();
    match argon2.hash_password(password.as_bytes()) {
        Ok(h) => Some(h.to_string()),
        Err(_) => None,
    }
}

/// Relies on `jsonwebtoken::encode` with the default (HS256) header: the
/// token is an HMAC-signed encoding of the claims `sub` and `exp` (the two
/// standard registered claim names), a function of subject, expiry and secret
/// alone. Under this configuration encoding cannot fail — the key family
/// matches the header's algorithm, an HMAC key of any length is accepted,
/// HMAC signing is infallible, and the claims object always serializes — so
/// a token is always returned.
#[verifier::external_body]
fn encode_jwt(subject: &str, expiry: u64, secret: &[u8]) -> (r: Option<String>)
    ensures
        r is Some,
        r matches Some(t) ==> t@ == jwt_of(subject@, expiry, secret@),
{
    let mut claims = serde_json::Map::new();
    claims.insert("sub".to_string(), serde_json::Value::String(subject.to_string()));
    claims.insert("exp".to_string(), serde_json::Value::Number(serde_json::Number::from(expiry)));
    let claims = serde_json::Value::Object(claims);
    let key = jsonwebtoken::EncodingKey::from_secret(secret);
    match jsonwebtoken::encode(&jsonwebtoken::Header::default(), &claims, &key) {
        Ok(t) => Some(t),
        Err(_) => None,
    }
}

/// Whether the expiry of a token issued at `now` stays in the representable
/// range: a token must never be issued with a wrong or absent expiry.
pub open spec fn expiry_ok(now: int) -> bool {
    0 <= now + TOKEN_LIFETIME_SECS <= i64::MAX
}

/// The expiry timestamp of a token issued at `now`.
pub open spec fn expiry_at(now: int) -> u64 {
    (now + TOKEN_LIFETIME_SECS) as u64
}

/// Issue a signed token for `username`, expiring one day after `now`
/// (a seconds-precision timestamp). Fails with `TokenError` exactly when the
/// expiry arithmetic leaves the representable range: a token with a wrong or
/// absent expiry is never issued, and with the expiry in range issuance
/// always succeeds.
pub fn create_jwt(username: &str, secret: &[u8], now: i64) -> (r: Result<String, ApiError>)
    ensures
        expiry_ok(now as int) ==> r is Ok,
        r matches Ok(t) ==> expiry_ok(now as int) && t@ == jwt_of(
            username@,
            expiry_at(now as int),
            secret@,
        ),
        r matches Err(e) ==> e == ApiError::TokenError,
        !expiry_ok(now as int) ==> r is Err,
{
    if now > i64::MAX - TOKEN_LIFETIME_SECS || now < -TOKEN_LIFETIME_SECS {
        return Err(ApiError::TokenError);
    }
    let exp: u64 = (now + TOKEN_LIFETIME_SECS) as u64;
    match encode_jwt(username, exp, secret) {
        Some(t) => Ok(t),
        None => Err(ApiError::TokenError),
    }
}

/// The credential store model: one row per registered user. The relational
/// table realizes it; its single invariant is that usernames are unique.
pub struct CredStore {
    pub users: Vec<User>,
}

impl View for CredStore {
    type V = Seq<User>;

    open spec fn view(&self) -> Seq<User> {
        self.users@
    }
}

/// Whether some row of `users` carries the username `name`.
pub open spec fn contains_name(users: Seq<User>, name: Seq<char>) -> bool {
    exists|i: int| 0 <= i < users.len() && users[i].name@ == name
}

/// The store invariant: no two rows share a username.
pub open spec fn unique_names(users: Seq<User>) -> bool {
    forall|i: int, j: int| 0 <= i < j < users.len() ==> users[i].name@ != users[j].name@
}

/// The hash record stored for `name`; meaningful when `contains_name` holds
/// and usernames are unique.
pub open spec fn stored_hash(users: Seq<User>, name: Seq<char>) -> Seq<char> {
    let i = choose|i: int| 0 <= i < users.len() && users[i].name@ == name;
    users[i].password@
}

/// With unique usernames, the stored hash of row `i`'s name is row `i`'s
/// hash.
proof fn lemma_stored_hash_at(users: Seq<User>, i: int)
    requires
        unique_names(users),
        0 <= i < users.len(),
    ensures
        contains_name(users, users[i].name@),
        stored_hash(users, users[i].name@) == users[i].password@,
{
    let name = users[i].name@;
    assert(contains_name(users, name));
    let j = choose|j: int| 0 <= j < users.len() && users[j].name@ == name;
    if i < j {
        assert(users[i].name@ != users[j].name@);
    } else if j < i {
        assert(users[j].name@ != users[i].name@);
    }
}

impl CredStore {
    /// An empty store.
    pub fn new() -> (r: CredStore)
        ensures
            r@ == Seq::<User>::empty(),
            unique_names(r@),
    {
        CredStore { users: Vec::new() }
    }

    /// Look a credential up by username: the one store read that both
    /// registration and login make.
    pub fn lookup(&self, name: &str) -> (r: Option<User>)
        requires
            unique_names(self@),
        ensures
            match r {
                Some(u) => contains_name(self@, name@) && u.name@ == name@ && u.password@
                    == stored_hash(self@, name@),
                None => !contains_name(self@, name@),
            },
    {
        let key: String = name.to_owned();
        let n: usize = self.users.len();
        let mut i: usize = 0;
        while i < n
            invariant
                unique_names(self@),
                n == self.users.len(),
                key@ == name@,
                i <= n,
                forall|j: int| 0 <= j < i ==> self.users@[j].name@ != name@,
            decreases n - i,
        {
            if self.users[i].name == key {
                proof {
                    lemma_stored_hash_at(self@, i as int);
                }
                let u = &self.users[i];
                return Some(User { name: u.name.clone(), password: u.password.clone() });
            }
            i += 1;
        }
        None
    }
}

/// The registration decision against the current store contents: a duplicate
/// username is rejected with `Conflict`.
pub open spec fn register_decision(users: Seq<User>, name: Seq<char>) -> Result<(), ApiError> {
    if contains_name(users, name) {
        Err(ApiError::Conflict)
    } else {
        Ok(())
    }
}

/// The login decision against the current store contents: an unknown user, a
/// corrupt stored hash, and a mismatched password each fail in their own way;
/// otherwise the caller is authorized.
pub open spec fn login_decision(users: Seq<User>, name: Seq<char>, password: Seq<char>) -> Result<
    (),
    ApiError,
> {
    if !contains_name(users, name) {
        Err(ApiError::NotFound)
    } else if !hash_parses(stored_hash(users, name)) {
        Err(ApiError::CorruptHash)
    } else if !hash_verifies(password, stored_hash(users, name)) {
        Err(ApiError::Unauthorized)
    } else {
        Ok(())
    }
}

/// Register a new user: reject a duplicate username with `Conflict`, hash the
/// password with a fresh salt, persist the credential, and issue a token for
/// the new user. A hashing failure is surfaced as `StorageError` before
/// anything is written; an out-of-range expiry after the write is surfaced
/// as `TokenError`, with the credential kept — as the store-backed flow
/// behaves. With a fresh name, a successful hash and the expiry in range,
/// registration succeeds.
pub fn register(
    store: &mut CredStore,
    name: &str,
    password: &str,
    now: i64,
    secret: &[u8],
) -> (r: Result<String, ApiError>)
    requires
        unique_names(old(store)@),
    ensures
        unique_names(final(store)@),
        register_decision(old(store)@, name@) == Err::<(), ApiError>(ApiError::Conflict) ==> r
            == Err::<String, ApiError>(ApiError::Conflict) && final(store)@ == old(store)@,
        register_decision(old(store)@, name@) == Ok::<(), ApiError>(()) ==> match r {
            Ok(t) => {
                &&& final(store)@.len() == old(store)@.len() + 1
                &&& forall|i: int|
                    0 <= i < old(store)@.len() ==> final(store)@[i] == old(store)@[i]
                &&& final(store)@.last().name@ == name@
                &&& hash_parses(final(store)@.last().password@)
                &&& hash_verifies(password@, final(store)@.last().password@)
                &&& expiry_ok(now as int)
                &&& t@ == jwt_of(name@, expiry_at(now as int), secret@)
            },
            Err(e) => (e == ApiError::StorageError && final(store)@ == old(store)@) || (e
                == ApiError::TokenError && !expiry_ok(now as int) && {
                &&& final(store)@.len() == old(store)@.len() + 1
                &&& forall|i: int|
                    0 <= i < old(store)@.len() ==> final(store)@[i] == old(store)@[i]
                &&& final(store)@.last().name@ == name@
                &&& hash_parses(final(store)@.last().password@)
                &&& hash_verifies(password@, final(store)@.last().password@)
            }),
        },
{
    match store.lookup(name) {
        Some(_) => Err(ApiError::Conflict),
        None => {
            match hash_password(password) {
                None => Err(ApiError::StorageError),
                Some(h) => {
                    let user = User { name: name.to_owned(), password: h };
                    store.users.push(user);
                    proof {
                        assert forall|i: int, j: int|
                            0 <= i < j < store@.len() implies store@[i].name@ != store@[j].name@
                        by {
                            if j < store@.len() - 1 {
                                assert(old(store)@[i].name@ != old(store)@[j].name@);
                            } else {
                                assert(!contains_name(old(store)@, name@));
                                assert(store@[i] == old(store)@[i]);
                            }
                        }
                    }
                    create_jwt(name, secret, now)
                },
            }
        },
    }
}

/// Log a user in: look the credential up, check the stored hash record, check
/// the password against it, and on a match issue a token whose subject is the
/// username — owed whenever the caller is authorized and the expiry stays in
/// range.
pub fn login(store: &CredStore, name: &str, password: &str, now: i64, secret: &[u8]) -> (r: Result<
    String,
    ApiError,
>)
    requires
        unique_names(store@),
    ensures
        login_decision(store@, name@, password@) matches Err(e) ==> r == Err::<String, ApiError>(e),
        login_decision(store@, name@, password@) == Ok::<(), ApiError>(()) ==> match r {
            Ok(t) => expiry_ok(now as int) && t@ == jwt_of(name@, expiry_at(now as int), secret@),
            Err(e) => e == ApiError::TokenError,
        },
        login_decision(store@, name@, password@) == Ok::<(), ApiError>(()) && expiry_ok(
            now as int,
        ) ==> r is Ok,
        login_decision(store@, name@, password@) == Ok::<(), ApiError>(()) && !expiry_ok(
            now as int,
        ) ==> r == Err::<String, ApiError>(ApiError::TokenError),
{
    match store.lookup(name) {
        None => Err(ApiError::NotFound),
        Some(user) => {
            if !parse_hash_ok(user.password.as_str()) {
                Err(ApiError::CorruptHash)
            } else if !verify_hash(password, user.password.as_str()) {
                Err(ApiError::Unauthorized)
            } else {
                create_jwt(name, secret, now)
            }
        },
    }
}

/// Registering a name that the store already holds — in particular one that a
/// previous successful registration just added — is always rejected with
/// `Conflict`; by `register`'s contract the store is then unchanged, so no
/// second credential row ever appears.
pub proof fn lemma_register_rejects_duplicate(users: Seq<User>, u: User)
    ensures
        register_decision(users.push(u), u.name@) == Err::<(), ApiError>(ApiError::Conflict),
{
    assert(users.push(u)[users.len() as int] == u);
    assert(contains_name(users.push(u), u.name@));
}

/// The register→login round trip: after a successful registration leaves the
/// store holding a new row for `u.name` whose hash record verifies against
/// the registered password (which `register` ensures), a login of that user
/// with that password is authorized — and by `login`'s contract the token it
/// then issues has the username as its subject.
pub proof fn lemma_register_then_login(users: Seq<User>, u: User, password: Seq<char>)
    requires
        unique_names(users),
        !contains_name(users, u.name@),
        hash_parses(u.password@),
        hash_verifies(password, u.password@),
    ensures
        unique_names(users.push(u)),
        login_decision(users.push(u), u.name@, password) == Ok::<(), ApiError>(()),
{
    let pushed = users.push(u);
    assert forall|i: int, j: int|
        0 <= i < j < pushed.len() implies pushed[i].name@ != pushed[j].name@
    by {
        if j < pushed.len() - 1 {
            assert(users[i].name@ != users[j].name@);
        } else {
            assert(pushed[i] == users[i]);
        }
    }
    assert(pushed[users.len() as int] == u);
    assert(contains_name(pushed, u.name@));
    lemma_stored_hash_at(pushed, users.len() as int);
}

} // verus!
