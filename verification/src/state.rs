//! What the service holds while it runs, and who may use it: the
//! administrators by name and password, the clients by bearer token.

use vstd::prelude::*;
use vstd::string::*;
use crate::catalog::{Catalog, Dated};
use crate::creation::{lemma_insert_from, TOKEN_LIFETIME_SECS};
use crate::config::Config;
use crate::error::Error;
use crate::models::Token;
use crate::queries::{is_first, none_match};
use crate::text::same_text;

verus! {

/// An administrator.
#[derive(Debug, PartialEq, Eq)]
pub struct User {
    pub password: String,
}

impl Clone for User {
    fn clone(&self) -> (copy: Self)
        ensures
            copy == *self,
    {
        User { password: self.password.clone() }
    }
}

/// A client that presented a valid token.
#[derive(Debug, PartialEq, Eq)]
pub struct Tokened {
    /// The id of the token.
    pub id: u128,
    /// The secret that was presented.
    pub token: String,
}

/// The state shared by all requests.
#[derive(Debug, PartialEq, Eq)]
pub struct AppState {
    pub db: Catalog,
    pub config: Config,
    /// The administrators, by name. No name occurs twice.
    pub users: Vec<(String, User)>,
}

/// Entries under the given name.
pub open spec fn user_named(username: Seq<char>) -> spec_fn((String, User)) -> bool {
    |entry: (String, User)| entry.0@ == username
}

/// Tokens that carry the given secret and have not expired at `now`.
pub open spec fn token_accepted(secret: Seq<char>, now: i64) -> spec_fn(Token) -> bool {
    |t: Token| t.token@ == secret && t.expires_at > now
}

impl AppState {
    /// Whether the administrators are a map from names: no name occurs
    /// twice.
    pub open spec fn wf(&self) -> bool {
        forall|i: int, j: int|
            0 <= i < j < self.users.len() ==> (#[trigger] self.users[i]).0@ != (
            #[trigger] self.users[j]).0@
    }

    /// The state at startup: the given catalog and configuration, and the
    /// one administrator `admin` with the password `admin`.
    pub fn new(db: Catalog, config: Config) -> (state: AppState)
        ensures
            state.wf(),
            state.db == db,
            state.config == config,
            state.users@.len() == 1,
            state.users@[0].0@ == "admin"@,
            state.users@[0].1.password@ == "admin"@,
    {
        let mut users: Vec<(String, User)> = Vec::new();
        users.push((String::from_str("admin"), User { password: String::from_str("admin") }));
        AppState { db, config, users }
    }

    /// The administrator who goes by `username`, if `password` is theirs.
    pub fn get_user(&self, username: &str, password: &str) -> (user: Option<User>)
        requires
            self.wf(),
        ensures
            match user {
                Some(user) => user.password@ == password@ && exists|entry: (String, User)|
                    #[trigger] is_first(self.users@, user_named(username@), entry) && entry.1
                        == user,
                None => none_match(self.users@, user_named(username@)) || exists|
                    entry: (String, User),
                |
                    #[trigger] is_first(self.users@, user_named(username@), entry)
                        && entry.1.password@ != password@,
            },
    {
        let mut i: usize = 0;
        while i < self.users.len()
            invariant
                i <= self.users.len(),
                forall|j: int| 0 <= j < i ==> !user_named(username@)(#[trigger] self.users@[j]),
            decreases self.users.len() - i,
        {
            if same_text(&self.users[i].0, username) {
                assert(is_first(self.users@, user_named(username@), self.users@[i as int]));
                if same_text(&self.users[i].1.password, password) {
                    let user = self.users[i].1.clone();
                    return Some(user);
                } else {
                    return None;
                }
            }
            i = i + 1;
        }
        None
    }

    /// The client that presents `token` at `now`: the first token of the
    /// catalog with that secret that has not expired. An unknown secret and
    /// an expired token alike give `None`.
    pub fn get_bearer(&self, token: &str, now: i64) -> (client: Option<Tokened>)
        ensures
            match client {
                Some(client) => client.token@ == token@ && exists|record: Token|
                    #[trigger] is_first(self.db.tokens@, token_accepted(token@, now), record)
                        && record.id == client.id,
                None => none_match(self.db.tokens@, token_accepted(token@, now)),
            },
    {
        let mut i: usize = 0;
        while i < self.db.tokens.len()
            invariant
                i <= self.db.tokens.len(),
                forall|j: int|
                    0 <= j < i ==> !token_accepted(token@, now)(#[trigger] self.db.tokens@[j]),
            decreases self.db.tokens.len() - i,
        {
            if same_text(&self.db.tokens[i].token, token) && self.db.tokens[i].expires_at
                > now {
                assert(is_first(
                    self.db.tokens@,
                    token_accepted(token@, now),
                    self.db.tokens@[i as int],
                ));
                return Some(Tokened { id: self.db.tokens[i].id, token: self.db.tokens[i].token.clone() });
            }
            i = i + 1;
        }
        None
    }
}

/// What checking a request for a bearer token ends in, `presented` being
/// the token that the transport read off the request, if it found one: the
/// client, or `Unauthorized` where no token was presented, or the one
/// presented is unknown or has expired.
pub open spec fn authorized(
    db: Catalog,
    presented: Option<Seq<char>>,
    now: i64,
    outcome: Result<Tokened, Error>,
) -> bool {
    match outcome {
        Ok(client) => presented == Some(client.token@) && exists|record: Token|
            #[trigger] is_first(db.tokens@, token_accepted(client.token@, now), record)
                && record.id == client.id,
        Err(e) => e == Error::Unauthorized && (presented matches Some(secret) ==> !admits(
            db,
            secret,
            now,
        )),
    }
}

impl AppState {
    /// Checks a request for a bearer token at `now`.
    pub fn authorize(&self, presented: Option<&str>, now: i64) -> (outcome: Result<Tokened, Error>)
        ensures
            authorized(
                self.db,
                match presented {
                    Some(secret) => Some(secret@),
                    None => None,
                },
                now,
                outcome,
            ),
    {
        match presented {
            None => Err(Error::Unauthorized),
            Some(secret) => match self.get_bearer(secret, now) {
                Some(client) => {
                    let ghost record = choose|record: Token|
                        #[trigger] is_first(
                            self.db.tokens@,
                            token_accepted(secret@, now),
                            record,
                        ) && record.id == client.id;
                    let outcome = Ok(client);
                    assert(is_first(self.db.tokens@, token_accepted(client.token@, now), record));
                    assert(authorized(self.db, Some(secret@), now, outcome));
                    outcome
                },
                None => {
                    let outcome = Err(Error::Unauthorized);
                    assert(authorized(self.db, Some(secret@), now, outcome));
                    outcome
                },
            },
        }
    }
}

/// Whether a client that presents `secret` at `now` is let in.
pub open spec fn admits(db: Catalog, secret: Seq<char>, now: i64) -> bool {
    !none_match(db.tokens@, token_accepted(secret, now))
}

/// A token is turned away from the moment it expires: a secret whose every
/// token has reached its expiry by `now` is not let in at `now`.
pub proof fn expired_is_rejected(db: Catalog, secret: Seq<char>, now: i64)
    requires
        forall|i: int|
            0 <= i < db.tokens.len() && (#[trigger] db.tokens[i]).token@ == secret
                ==> db.tokens[i].expires_at <= now,
    ensures
        !admits(db, secret, now),
{
}

/// Rejection lasts: a secret that is not let in at one moment is not let in
/// at any later one, as long as the tokens stay the same.
pub proof fn rejection_lasts(db: Catalog, secret: Seq<char>, earlier: i64, later: i64)
    requires
        earlier <= later,
        !admits(db, secret, earlier),
    ensures
        !admits(db, secret, later),
{
    assert forall|j: int| 0 <= j < db.tokens@.len() implies !token_accepted(secret, later)(
        #[trigger] db.tokens@[j],
    ) by {
        assert(!token_accepted(secret, earlier)(db.tokens@[j]));
    }
}

/// A new token is let in for thirty days and not a moment longer: once it
/// has been added at `made`, its secret is accepted at `now` exactly while
/// `now` is less than thirty days past `made`.
pub proof fn token_lives_thirty_days(
    before: Catalog,
    after: Catalog,
    id: u128,
    name: Seq<char>,
    tables: Seq<u128>,
    made: i64,
    token: Token,
    now: i64,
)
    requires
        after.token_added(before, id, token.token@, name, tables, made, Ok(token)),
    ensures
        admits(after, token.token@, now) <==> now < made + TOKEN_LIFETIME_SECS,
{
    let secret = token.token@;
    let p = choose|p: int|
        {
            &&& 0 <= p <= before.tokens@.len()
            &&& #[trigger] before.tokens@.insert(p, token) == after.tokens@
            &&& forall|i: int| 0 <= i < p ==> before.tokens@[i].created() <= token.created()
            &&& forall|i: int|
                p <= i < before.tokens@.len() ==> before.tokens@[i].created() > token.created()
        };
    assert(!before.has_secret(secret));
    if now < made + TOKEN_LIFETIME_SECS {
        lemma_insert_from(before.tokens@, p, token, p);
        assert(token_accepted(secret, now)(after.tokens@[p]));
    } else {
        assert forall|j: int| 0 <= j < after.tokens@.len() implies !token_accepted(secret, now)(
            #[trigger] after.tokens@[j],
        ) by {
            lemma_insert_from(before.tokens@, p, token, j);
            if j < p {
                assert(before.tokens[j].token@ != secret);
            } else if j > p {
                assert(before.tokens[j - 1].token@ != secret);
            }
        }
    }
}

} // verus!
