use license_exam::game::GameStrings;
use license_exam::models::Game;
use license_exam::routes::game::{AckOutcome, InstructionResponse, NextInstructionOutcome};
use license_exam::routes::users::{LoginBody, LoginOutcome, RegisterOutcome, UserBody};
use license_exam::store::Store;

fn strings() -> GameStrings {
    GameStrings {
        welcome_begin: "Welcome!\n".to_string(),
        puzzle_prompt: "Solve the puzzle.".to_string(),
        welcome_end: "\nGood luck.".to_string(),
    }
}

fn register_and_login(store: &mut Store, username: &str) -> String {
    let outcome = license_exam::routes::users::register_user(
        store,
        UserBody {
            name: "Tester McTester".to_string(),
            username: username.to_string(),
            password: "testtesttest".to_string(),
        },
    );
    assert!(matches!(outcome, RegisterOutcome::Registered));
    let session_token = 0xfeed_0000_u128 + store.sessions.len() as u128;
    let outcome = license_exam::routes::users::login(
        store,
        LoginBody { username: username.to_string(), password: "testtesttest".to_string() },
        session_token,
        1_700_000_000,
        &strings(),
    );
    match outcome {
        LoginOutcome::LoggedIn(resp) => resp.token,
        _ => panic!("login failed"),
    }
}

fn request_challenge(store: &mut Store, token: &String) -> NextInstructionOutcome {
    license_exam::routes::game::post_next_instruction(store, Some(token), 1_700_000_100)
}

fn expect_issued(outcome: NextInstructionOutcome) -> InstructionResponse {
    match outcome {
        NextInstructionOutcome::Issued(resp) => resp,
        NextInstructionOutcome::AlreadyPassed => panic!("unexpected already-passed"),
        NextInstructionOutcome::Denied(_) => panic!("unexpected denial"),
    }
}

/// Acknowledge exactly the channels the magnitude expects.
fn acknowledge_correctly(store: &mut Store, token: &String, challenge: &InstructionResponse) {
    let n = challenge.id;
    let expect_fizz = n % 3 == 0;
    let expect_buzz = n % 5 == 0;
    let expect_other = !expect_fizz && !expect_buzz;
    let now = 1_700_000_200;
    if expect_fizz {
        let r = license_exam::routes::game::post_fizz(store, Some(token), &challenge.token, now);
        assert!(matches!(r, AckOutcome::Acked));
    }
    if expect_buzz {
        let r = license_exam::routes::game::post_buzz(store, Some(token), &challenge.token, now);
        assert!(matches!(r, AckOutcome::Acked));
    }
    if expect_other {
        let r = license_exam::routes::game::post_instructions(
            store,
            Some(token),
            &challenge.token,
            now,
        );
        assert!(matches!(r, AckOutcome::Acked));
    }
}

#[test]
fn fresh_user_gets_challenge_with_zero_streak() {
    let mut store = Store::new();
    let token = register_and_login(&mut store, "tester");
    let challenge = expect_issued(request_challenge(&mut store, &token));
    assert_eq!(challenge.correct_in_a_row, 0);
    assert!((0..=0xFFFF).contains(&challenge.id));
    // the issued challenge token is a well-formed opaque token, not an echo
    assert_eq!(challenge.token.len(), 36);
}

#[test]
fn two_requests_without_acks_reset_streak() {
    let mut store = Store::new();
    let token = register_and_login(&mut store, "tester");
    // earn one streak step first, so a reset is observable
    let challenge = expect_issued(request_challenge(&mut store, &token));
    acknowledge_correctly(&mut store, &token, &challenge);
    let challenge = expect_issued(request_challenge(&mut store, &token));
    assert_eq!(challenge.correct_in_a_row, 1);
    // no acknowledgements now: the next request must reset to zero, never increment
    let challenge = expect_issued(request_challenge(&mut store, &token));
    assert_eq!(challenge.correct_in_a_row, 0);
    let challenge = expect_issued(request_challenge(&mut store, &token));
    assert_eq!(challenge.correct_in_a_row, 0);
}

#[test]
fn correct_acknowledgements_increment_streak_by_one() {
    let mut store = Store::new();
    let token = register_and_login(&mut store, "tester");
    let challenge = expect_issued(request_challenge(&mut store, &token));
    acknowledge_correctly(&mut store, &token, &challenge);
    let challenge = expect_issued(request_challenge(&mut store, &token));
    assert_eq!(challenge.correct_in_a_row, 1);
    acknowledge_correctly(&mut store, &token, &challenge);
    let challenge = expect_issued(request_challenge(&mut store, &token));
    assert_eq!(challenge.correct_in_a_row, 2);
}

#[test]
fn wrong_channel_resets_streak() {
    let mut store = Store::new();
    let token = register_and_login(&mut store, "tester");
    let challenge = expect_issued(request_challenge(&mut store, &token));
    let n = challenge.id;
    let now = 1_700_000_300;
    // acknowledge one channel the magnitude does not expect
    let r = if n % 3 != 0 {
        license_exam::routes::game::post_fizz(&mut store, Some(&token), &challenge.token, now)
    } else if n % 5 != 0 {
        license_exam::routes::game::post_buzz(&mut store, Some(&token), &challenge.token, now)
    } else {
        // n divisible by both: the `other` channel is the wrong one
        license_exam::routes::game::post_instructions(
            &mut store,
            Some(&token),
            &challenge.token,
            now,
        )
    };
    assert!(matches!(r, AckOutcome::Acked));
    let challenge = expect_issued(request_challenge(&mut store, &token));
    assert_eq!(challenge.correct_in_a_row, 0);
}

#[test]
fn licensed_account_short_circuits_permanently() {
    let mut store = Store::new();
    // an account already at the threshold
    let user = license_exam::store::create_user(
        &mut store,
        "Tester McTester".to_string(),
        "tester".to_string(),
        "testtesttest".to_string(),
        150,
    )
    .expect("create_user failed");
    assert!(user.is_licensed());
    let outcome = license_exam::routes::users::login(
        &mut store,
        LoginBody { username: "tester".to_string(), password: "testtesttest".to_string() },
        0xabcd_u128,
        1_700_000_000,
        &strings(),
    );
    let token = match outcome {
        LoginOutcome::LoggedIn(resp) => {
            assert!(resp.licensed);
            assert!(resp.incoming_message.is_none());
            resp.token
        },
        _ => panic!("login failed"),
    };
    for _ in 0..3 {
        let outcome = request_challenge(&mut store, &token);
        assert!(matches!(outcome, NextInstructionOutcome::AlreadyPassed));
        assert_eq!(outcome.status(), 204);
    }
    // no challenge row was ever created, and the streak is untouched
    assert!(store.games.is_empty());
    assert_eq!(store.users[0].license_game_stage, 150);
}

#[test]
fn reaching_threshold_reports_passed_and_issues_nothing() {
    let mut store = Store::new();
    license_exam::store::create_user(
        &mut store,
        "Tester McTester".to_string(),
        "tester".to_string(),
        "testtesttest".to_string(),
        149,
    )
    .expect("create_user failed");
    let outcome = license_exam::routes::users::login(
        &mut store,
        LoginBody { username: "tester".to_string(), password: "testtesttest".to_string() },
        0xabcd_u128,
        1_700_000_000,
        &strings(),
    );
    let token = match outcome {
        LoginOutcome::LoggedIn(resp) => resp.token,
        _ => panic!("login failed"),
    };
    let challenge = expect_issued(request_challenge(&mut store, &token));
    assert_eq!(challenge.correct_in_a_row, 149);
    acknowledge_correctly(&mut store, &token, &challenge);
    // the 150th correct round flips the account to licensed: no new challenge
    let outcome = request_challenge(&mut store, &token);
    assert!(matches!(outcome, NextInstructionOutcome::AlreadyPassed));
    assert!(store.games.is_empty());
    assert_eq!(store.users[0].license_game_stage, 150);
    // and it stays that way
    let outcome = request_challenge(&mut store, &token);
    assert!(matches!(outcome, NextInstructionOutcome::AlreadyPassed));
    assert_eq!(store.users[0].license_game_stage, 150);
}

#[test]
fn acknowledging_unknown_challenge_token_fails() {
    let mut store = Store::new();
    let token = register_and_login(&mut store, "tester");
    let _challenge = expect_issued(request_challenge(&mut store, &token));
    // a well-formed token that matches no live challenge
    let wrong = "550e8400-e29b-41d4-a716-446655440000".to_string();
    let r = license_exam::routes::game::post_fizz(&mut store, Some(&token), &wrong, 1_700_000_400);
    assert!(matches!(r, AckOutcome::ChallengeNotFound));
    assert_eq!(r.status(), 404);
    // a token that does not even parse
    let bad = "not-a-token".to_string();
    let r = license_exam::routes::game::post_buzz(&mut store, Some(&token), &bad, 1_700_000_400);
    assert!(matches!(r, AckOutcome::BadToken));
    assert_eq!(r.status(), 400);
}

#[test]
fn acknowledgements_are_idempotent_per_channel() {
    let mut store = Store::new();
    let token = register_and_login(&mut store, "tester");
    let challenge = expect_issued(request_challenge(&mut store, &token));
    acknowledge_correctly(&mut store, &token, &challenge);
    // repeating the same correct acknowledgements changes nothing
    acknowledge_correctly(&mut store, &token, &challenge);
    let challenge = expect_issued(request_challenge(&mut store, &token));
    assert_eq!(challenge.correct_in_a_row, 1);
}

#[test]
fn completion_check_handles_every_divisibility_case() {
    let completed = |n: i32, fizz: bool, buzz: bool, other: bool| {
        Game {
            user_id: 1,
            token: 2,
            instruction: n,
            contacted_fizz: fizz,
            contacted_buzz: buzz,
            contacted_instructions: other,
        }
        .instruction_completed()
    };
    // n = 0 is divisible by both 3 and 5, with no special case
    assert!(completed(0, true, true, false));
    assert!(!completed(0, false, false, true));
    assert!(completed(9, true, false, false));
    assert!(completed(10, false, true, false));
    assert!(completed(15, true, true, false));
    assert!(completed(7, false, false, true));
    assert!(!completed(7, true, false, true));
    assert!(!completed(7, false, false, false));
    assert!(completed(65535, true, true, false));
}
