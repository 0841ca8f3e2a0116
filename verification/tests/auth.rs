use riverbank::catalog::Catalog;
use riverbank::config::Config;
use riverbank::error::Error;
use riverbank::routes::admin::require_admin;
use riverbank::routes::v1::require_token;
use riverbank::state::{AppState, Tokened, User};

const NOW: i64 = 1_620_000_000;

fn state() -> AppState {
    let mut db = Catalog::new();
    db.add_share(1, "s1", 1).unwrap();
    db.add_schema(11, "sc1", 1, 2).unwrap();
    db.add_table(101, "t1", "s3://bucket/t1", 11, 3).unwrap();
    db.add_token(1000, "the-secret", "reader", &[101], NOW).unwrap();
    AppState::new(db, Config::new())
}

#[test]
fn admin_is_known_at_startup() {
    let state = AppState::new(Catalog::new(), Config::new());
    assert_eq!(1, state.users.len());
    assert_eq!("admin", state.users[0].0);
    assert_eq!(Some(User { password: "admin".to_string() }), state.get_user("admin", "admin"));
}

#[test]
fn wrong_password_or_name_is_nobody() {
    let state = state();
    assert_eq!(None, state.get_user("admin", "nimda"));
    assert_eq!(None, state.get_user("admin", ""));
    assert_eq!(None, state.get_user("root", "admin"));
    assert_eq!(None, state.get_user("", ""));
}

#[test]
fn each_administrator_has_their_own_password() {
    let mut state = state();
    state.users.push(("ops".to_string(), User { password: "pw".to_string() }));
    assert!(state.get_user("admin", "admin").is_some());
    assert!(state.get_user("ops", "pw").is_some());
    assert_eq!(None, state.get_user("ops", "admin"));
    assert_eq!(None, state.get_user("admin", "pw"));
}

#[test]
fn bearer_token_is_accepted_until_it_expires() {
    let state = state();
    let expires_at = state.db.tokens[0].expires_at;
    assert_eq!(NOW + 2_592_000, expires_at);
    assert_eq!(
        Some(Tokened { id: 1000, token: "the-secret".to_string() }),
        state.get_bearer("the-secret", NOW)
    );
    assert!(state.get_bearer("the-secret", expires_at - 1).is_some());
    assert_eq!(None, state.get_bearer("the-secret", expires_at));
    assert_eq!(None, state.get_bearer("the-secret", expires_at + 1));
    assert_eq!(None, state.get_bearer("the-secret", i64::MAX));
}

#[test]
fn unknown_bearer_token_is_rejected() {
    let state = state();
    assert_eq!(None, state.get_bearer("another", NOW));
    assert_eq!(None, state.get_bearer("", NOW));
    assert_eq!(None, state.get_bearer("the-secret ", NOW));
}

#[test]
fn request_without_token_gets_401() {
    let rejected = require_token(None).unwrap_err();
    assert_eq!(401, rejected.status);
    assert_eq!("Not authenticated", rejected.body);
    assert!(rejected.headers.is_empty());
    let client = Tokened { id: 7, token: "x".to_string() };
    assert_eq!(Ok(Tokened { id: 7, token: "x".to_string() }), require_token(Some(client)));
}

#[test]
fn request_without_admin_gets_the_challenge() {
    let rejected = require_admin(None).unwrap_err();
    assert_eq!(401, rejected.status);
    assert_eq!("howdy stranger", rejected.body);
    assert_eq!(vec![("WWW-Authenticate".to_string(), "Basic".to_string())], rejected.headers);
    let user = User { password: "admin".to_string() };
    assert_eq!(Ok(user.clone()), require_admin(Some(user)));
}

#[test]
fn authorize_turns_strangers_away() {
    let state = state();
    let expires_at = state.db.tokens[0].expires_at;
    assert_eq!(
        Ok(Tokened { id: 1000, token: "the-secret".to_string() }),
        state.authorize(Some("the-secret"), NOW)
    );
    assert_eq!(Err(Error::Unauthorized), state.authorize(None, NOW));
    assert_eq!(Err(Error::Unauthorized), state.authorize(Some("another"), NOW));
    assert_eq!(Err(Error::Unauthorized), state.authorize(Some("the-secret"), expires_at));
    assert_eq!(401, state.authorize(None, NOW).unwrap_err().status());
}
