use license_exam::routes::users::{RegisterOutcome, UserBody};
use license_exam::store::Store;

fn assert_bad_registration(body: UserBody, contained_errors: Vec<&str>) {
    let mut store = Store::new();
    let outcome = license_exam::routes::users::register_user(&mut store, body);
    match outcome {
        RegisterOutcome::Invalid(errors) => {
            assert_eq!(outcome_status(&RegisterOutcome::Invalid(errors.clone())), 400);
            for expected in contained_errors {
                assert!(
                    errors.iter().any(|e| e == expected),
                    "error list did not contain {:?}, only: {:?}",
                    expected,
                    errors
                );
            }
        },
        _ => panic!("registration was not refused"),
    }
    assert!(store.users.is_empty());
}

fn outcome_status(outcome: &RegisterOutcome) -> u16 {
    outcome.status()
}

#[test]
fn invalid_user_bad_password() {
    let value = UserBody {
        name: "Tester McTester".to_string(),
        username: "tester".to_string(),
        password: "testtest".to_string(),
    };
    assert_bad_registration(value, vec!["Password must be at least 12 characters long"]);
}

#[test]
fn invalid_user_short_username() {
    let value = UserBody {
        name: "Tester McTester".to_string(),
        username: "aa".to_string(),
        password: "testtesttest".to_string(),
    };
    assert_bad_registration(value, vec!["Username must be at least 3 characters long"]);
}

#[test]
fn invalid_user_long_username() {
    let value = UserBody {
        name: "Tester McTester".to_string(),
        username: String::from_utf8(vec![b'a'; 1000]).unwrap(),
        password: "testtesttest".to_string(),
    };
    assert_bad_registration(value, vec!["Username must be at most 100 characters long"]);
}

#[test]
fn invalid_user_long_company() {
    let value = UserBody {
        name: String::from_utf8(vec![b'a'; 1000]).unwrap(),
        username: "testtest".to_string(),
        password: "testtesttest".to_string(),
    };
    assert_bad_registration(value, vec!["Company Name must be at most 100 characters long"]);
}

#[test]
fn invalid_user_short_company() {
    let value = UserBody {
        name: "a".to_string(),
        username: "testtest".to_string(),
        password: "testtesttest".to_string(),
    };
    assert_bad_registration(value, vec!["Company Name must be at least 3 characters long"]);
}

#[test]
fn invalid_user_nonalphabetic_company() {
    let value = UserBody {
        name: "Tester McTester".to_string(),
        username: "$$$$".to_string(),
        password: "testtesttest".to_string(),
    };
    assert_bad_registration(value, vec!["Username must be alphabetic"]);
}

#[test]
fn all_violations_reported_together() {
    let value = UserBody {
        name: "a".to_string(),
        username: "$".to_string(),
        password: "short".to_string(),
    };
    match value.is_valid() {
        Err(errors) => {
            assert_eq!(
                errors,
                vec![
                    "Username must be at least 3 characters long".to_string(),
                    "Company Name must be at least 3 characters long".to_string(),
                    "Username must be alphabetic".to_string(),
                    "Password must be at least 12 characters long".to_string(),
                ]
            );
        },
        Ok(()) => panic!("invalid body was accepted"),
    }
}

#[test]
fn boundary_lengths_accepted() {
    let value = UserBody {
        name: "abc".to_string(),
        username: "abc".to_string(),
        password: "abcdefghijkl".to_string(),
    };
    assert!(value.is_valid().is_ok());
    let long = UserBody {
        name: String::from_utf8(vec![b'a'; 100]).unwrap(),
        username: String::from_utf8(vec![b'z'; 100]).unwrap(),
        password: String::from_utf8(vec![b'p'; 12]).unwrap(),
    };
    assert!(long.is_valid().is_ok());
}
