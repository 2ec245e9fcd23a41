use license_exam::auth::AuthError;
use license_exam::game::GameStrings;
use license_exam::models::Session;
use license_exam::routes::users::{
    LoginBody, LoginOutcome, RegisterOutcome, UserBody, UserTokenOutcome,
};
use license_exam::store::Store;

fn strings() -> GameStrings {
    GameStrings {
        welcome_begin: "Welcome!\n".to_string(),
        puzzle_prompt: "Solve the puzzle.".to_string(),
        welcome_end: "\nGood luck.".to_string(),
    }
}

fn valid_body() -> UserBody {
    UserBody {
        name: "Tester McTester".to_string(),
        username: "tester".to_string(),
        password: "testtesttest".to_string(),
    }
}

#[test]
fn valid_user_auth_flow() {
    let mut store = Store::new();
    let outcome = license_exam::routes::users::register_user(&mut store, valid_body());
    assert!(matches!(outcome, RegisterOutcome::Registered));
    assert_eq!(outcome.status(), 200);

    let outcome = license_exam::routes::users::login(
        &mut store,
        LoginBody { username: "tester".to_string(), password: "testtesttest".to_string() },
        0x1234_u128,
        1_700_000_000,
        &strings(),
    );
    assert_eq!(outcome.status(), 200);
    let resp = match outcome {
        LoginOutcome::LoggedIn(resp) => resp,
        _ => panic!("login failed"),
    };
    assert!(!resp.licensed);
    // the puzzle prompt arrives split into its lines
    assert_eq!(
        resp.incoming_message,
        Some(vec![
            "Welcome!".to_string(),
            "Solve the puzzle.".to_string(),
            "Good luck.".to_string(),
        ])
    );
    // the session token is rendered in its canonical hyphenated form
    assert_eq!(resp.token, "00000000-0000-0000-0000-000000001234");

    let outcome = license_exam::routes::users::get_user_by_token(
        &mut store,
        Some(&resp.token),
        1_700_000_050,
    );
    assert_eq!(outcome.status(), 200);
    match outcome {
        UserTokenOutcome::Found(user) => {
            assert_eq!(user.name, "Tester McTester");
            assert_eq!(user.username, "tester");
            assert!(!user.licensed);
        },
        UserTokenOutcome::Denied(_) => panic!("token did not authenticate"),
    }
}

#[test]
fn invalid_login() {
    let mut store = Store::new();
    // the user is never created
    let outcome = license_exam::routes::users::login(
        &mut store,
        LoginBody { username: "tester".to_string(), password: "testtesttest".to_string() },
        0x1234_u128,
        1_700_000_000,
        &strings(),
    );
    assert!(matches!(outcome, LoginOutcome::InvalidCredentials));
    assert_eq!(outcome.status(), 400);
}

#[test]
fn bad_password() {
    let mut store = Store::new();
    let outcome = license_exam::routes::users::register_user(&mut store, valid_body());
    assert!(matches!(outcome, RegisterOutcome::Registered));
    let outcome = license_exam::routes::users::login(
        &mut store,
        LoginBody { username: "tester".to_string(), password: "wrongpassword".to_string() },
        0x1234_u128,
        1_700_000_000,
        &strings(),
    );
    assert!(matches!(outcome, LoginOutcome::InvalidCredentials));
    assert_eq!(outcome.status(), 400);
    // the stored credential is a salted digest, never the password itself
    assert_ne!(store.users[0].password_digest, "testtesttest");
    assert!(store.users[0].password_digest.starts_with("$argon2"));
}

#[test]
fn fake_auth_header() {
    let mut store = Store::new();
    let header = "1234".to_string();
    let outcome =
        license_exam::routes::users::get_user_by_token(&mut store, Some(&header), 1_700_000_000);
    match outcome {
        UserTokenOutcome::Denied(e) => {
            assert!(matches!(e, AuthError::MalformedCredential));
            assert_eq!(e.status(), 401);
        },
        UserTokenOutcome::Found(_) => panic!("a malformed token authenticated"),
    }
}

#[test]
fn missing_header_is_unauthorized() {
    let mut store = Store::new();
    let outcome = license_exam::routes::users::get_user_by_token(&mut store, None, 1_700_000_000);
    match outcome {
        UserTokenOutcome::Denied(e) => {
            assert!(matches!(e, AuthError::NoCredential));
            assert_eq!(e.status(), 401);
            assert_eq!(e.message(), "No authorization header");
        },
        UserTokenOutcome::Found(_) => panic!("a missing header authenticated"),
    }
}

#[test]
fn unknown_token_is_bad_request() {
    let mut store = Store::new();
    let header = "550e8400-e29b-41d4-a716-446655440000".to_string();
    let outcome =
        license_exam::routes::users::get_user_by_token(&mut store, Some(&header), 1_700_000_000);
    match outcome {
        UserTokenOutcome::Denied(e) => {
            assert!(matches!(e, AuthError::InvalidToken));
            assert_eq!(e.status(), 400);
            assert_eq!(e.message(), "Invalid token");
        },
        UserTokenOutcome::Found(_) => panic!("an unknown token authenticated"),
    }
}

#[test]
fn deleted_account_token_never_authenticates() {
    let mut store = Store::new();
    // a session whose owning account does not exist (a dangling session)
    license_exam::store::insert_session(
        &mut store,
        Session { token: 0x5eed_u128, user_id: 0xdead_u128, last_used: 0 },
    )
    .expect("insert_session failed");
    // present the dangling session's token in its canonical text
    let header = "00000000-0000-0000-0000-000000005eed".to_string();
    let outcome =
        license_exam::routes::users::get_user_by_token(&mut store, Some(&header), 1_700_000_000);
    match outcome {
        UserTokenOutcome::Denied(e) => assert!(matches!(e, AuthError::InvalidToken)),
        UserTokenOutcome::Found(_) => panic!("a dangling session authenticated"),
    }
    assert!(license_exam::rpc::UserAuth.get_user(&mut store, &header, 1_700_000_000).is_err());
}

#[test]
fn session_last_used_is_refreshed() {
    let mut store = Store::new();
    let outcome = license_exam::routes::users::register_user(&mut store, valid_body());
    assert!(matches!(outcome, RegisterOutcome::Registered));
    let outcome = license_exam::routes::users::login(
        &mut store,
        LoginBody { username: "tester".to_string(), password: "testtesttest".to_string() },
        0x1234_u128,
        1_000,
        &strings(),
    );
    let token = match outcome {
        LoginOutcome::LoggedIn(resp) => resp.token,
        _ => panic!("login failed"),
    };
    assert_eq!(store.sessions[0].last_used, 1_000);
    let _ = license_exam::routes::users::get_user_by_token(&mut store, Some(&token), 2_000);
    assert_eq!(store.sessions[0].last_used, 2_000);
}

#[test]
fn duplicate_username_is_refused_by_the_store() {
    let mut store = Store::new();
    let outcome = license_exam::routes::users::register_user(&mut store, valid_body());
    assert!(matches!(outcome, RegisterOutcome::Registered));
    let outcome = license_exam::routes::users::register_user(&mut store, valid_body());
    assert!(matches!(outcome, RegisterOutcome::Failed));
    assert_eq!(outcome.status(), 500);
    assert_eq!(store.users.len(), 1);
}

#[test]
fn rpc_and_http_agree_on_the_same_token() {
    let mut store = Store::new();
    let outcome = license_exam::routes::users::register_user(&mut store, valid_body());
    assert!(matches!(outcome, RegisterOutcome::Registered));
    let outcome = license_exam::routes::users::login(
        &mut store,
        LoginBody { username: "tester".to_string(), password: "testtesttest".to_string() },
        0x1234_u128,
        1_700_000_000,
        &strings(),
    );
    let token = match outcome {
        LoginOutcome::LoggedIn(resp) => resp.token,
        _ => panic!("login failed"),
    };
    let via_rpc = license_exam::rpc::UserAuth.get_user(&mut store, &token, 1_700_000_100);
    let view = via_rpc.expect("the RPC surface refused a token the HTTP surface issued");
    assert_eq!(view.username, "tester");
    assert_eq!(view.name, "Tester McTester");
    assert!(!view.licensed);
    assert_eq!(view.auth_token, token);
    let via_http =
        license_exam::routes::users::get_user_by_token(&mut store, Some(&token), 1_700_000_200);
    match via_http {
        UserTokenOutcome::Found(user) => {
            assert_eq!(user.id, view.id);
        },
        UserTokenOutcome::Denied(_) => panic!("the two surfaces disagreed"),
    }
    // a malformed token is refused by both surfaces alike
    let bad = "zzz".to_string();
    assert!(license_exam::rpc::UserAuth.get_user(&mut store, &bad, 1).is_err());
    assert!(matches!(
        license_exam::routes::users::get_user_by_token(&mut store, Some(&bad), 1),
        UserTokenOutcome::Denied(AuthError::MalformedCredential)
    ));
}
