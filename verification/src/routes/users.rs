use vstd::prelude::*;
use vstd::string::{StrSliceExecFns, StringExecFns};

use crate::auth::{get_user_by_auth_header, spec_header, spec_resolve, AuthError};
use crate::credentials::{spec_password_verifies, verify_password};
use crate::game::{spec_puzzle_message, spec_split_lines, split_lines, GameStrings};
use crate::models::{Session, User};
use crate::router::{HandlerId, Routable, Route, Verb};
use crate::store::{
    create_user, has_session, has_username, insert_session, spec_user_by_name, Store,
};
use crate::tokens::{format_token, spec_token_text};

verus! {

/// A registration request body.
pub struct UserBody {
    pub name: String,
    pub username: String,
    pub password: String,
}

/// ASCII digits and letters, the only characters a username may hold.
pub open spec fn spec_is_ascii_alphanumeric(c: char) -> bool {
    (48 <= c as u32 && c as u32 <= 57) || (65 <= c as u32 && c as u32 <= 90) || (97 <= c as u32
        && c as u32 <= 122)
}

impl UserBody {
    pub open spec fn spec_username_chars_ok(&self) -> bool {
        forall|i: int|
            0 <= i < self.username@.len() ==> spec_is_ascii_alphanumeric(
                #[trigger] self.username@[i],
            )
    }

    /// The registration rules: username 3-100 ASCII-alphanumeric
    /// characters, display name 3-100 characters, password at least 12.
    pub open spec fn spec_valid(&self) -> bool {
        &&& 3 <= self.username@.len() <= 100
        &&& 3 <= self.name@.len() <= 100
        &&& self.spec_username_chars_ok()
        &&& self.password@.len() >= 12
    }

    /// All violated rules, reported together in a fixed order.
    pub open spec fn spec_validation_errors(&self) -> Seq<Seq<char>> {
        let e0 = Seq::<Seq<char>>::empty();
        let e1 = if self.username@.len() < 3 {
            e0.push("Username must be at least 3 characters long"@)
        } else {
            e0
        };
        let e2 = if self.username@.len() > 100 {
            e1.push("Username must be at most 100 characters long"@)
        } else {
            e1
        };
        let e3 = if self.name@.len() < 3 {
            e2.push("Company Name must be at least 3 characters long"@)
        } else {
            e2
        };
        let e4 = if self.name@.len() > 100 {
            e3.push("Company Name must be at most 100 characters long"@)
        } else {
            e3
        };
        let e5 = if !self.spec_username_chars_ok() {
            e4.push("Username must be alphabetic"@)
        } else {
            e4
        };
        if self.password@.len() < 12 {
            e5.push("Password must be at least 12 characters long"@)
        } else {
            e5
        }
    }

    /// Whether every username character is ASCII alphanumeric.
    fn username_chars_ok(&self) -> (r: bool)
        ensures
            r == self.spec_username_chars_ok(),
    {
        let s = self.username.as_str();
        let n = s.unicode_len();
        let mut i: usize = 0;
        while i < n
            invariant
                i <= n,
                n == self.username@.len(),
                s@ == self.username@,
                forall|k: int|
                    0 <= k < i ==> spec_is_ascii_alphanumeric(#[trigger] self.username@[k]),
            decreases n - i,
        {
            let c = s.get_char(i);
            let u = c as u32;
            if !((48 <= u && u <= 57) || (65 <= u && u <= 90) || (97 <= u && u <= 122)) {
                proof {
                    assert(self.username@[i as int] == c);
                }
                return false;
            }
            i += 1;
        }
        true
    }

    /// Check the registration rules, returning every violation at once.
    pub fn is_valid(&self) -> (r: Result<(), Vec<String>>)
        ensures
            r is Ok <==> self.spec_valid(),
            (r matches Err(errs) ==> errs@.len() == self.spec_validation_errors().len() && forall|
                i: int,
            |
                0 <= i < errs@.len() ==> (#[trigger] errs@[i])@ == self.spec_validation_errors()[i]),
    {
        let mut errors: Vec<String> = Vec::new();
        if self.username.as_str().unicode_len() < 3 {
            errors.push(String::from_str("Username must be at least 3 characters long"));
        }
        if self.username.as_str().unicode_len() > 100 {
            errors.push(String::from_str("Username must be at most 100 characters long"));
        }
        if self.name.as_str().unicode_len() < 3 {
            errors.push(String::from_str("Company Name must be at least 3 characters long"));
        }
        if self.name.as_str().unicode_len() > 100 {
            errors.push(String::from_str("Company Name must be at most 100 characters long"));
        }
        let alphabetic_check = self.username_chars_ok();
        if !alphabetic_check {
            errors.push(String::from_str("Username must be alphabetic"));
        }
        if self.password.as_str().unicode_len() < 12 {
            errors.push(String::from_str("Password must be at least 12 characters long"));
        }
        if errors.len() > 0 {
            Err(errors)
        } else {
            Ok(())
        }
    }
}

/// How a registration request ends.
pub enum RegisterOutcome {
    /// The account was created.
    Registered,
    /// The body broke the validation rules; all violations are carried.
    Invalid(Vec<String>),
    /// The store refused the row (username race or hashing failure); the
    /// caller sees a generic internal failure, as the uniqueness constraint
    /// is not pre-checked.
    Failed,
}

impl RegisterOutcome {
    pub open spec fn spec_status(&self) -> u16 {
        match self {
            RegisterOutcome::Registered => 200,
            RegisterOutcome::Invalid(_) => 400,
            RegisterOutcome::Failed => 500,
        }
    }

    pub fn status(&self) -> (s: u16)
        ensures
            s == self.spec_status(),
    {
        match self {
            RegisterOutcome::Registered => 200,
            RegisterOutcome::Invalid(_) => 400,
            RegisterOutcome::Failed => 500,
        }
    }
}

/// Register a new account: an invalid body is refused with every violated
/// rule, a valid one is stored with a hashed credential and a zero streak.
pub fn register_user(store: &mut Store, user_body: UserBody) -> (r: RegisterOutcome)
    requires
        old(store).wf(),
    ensures
        final(store).wf(),
        r is Invalid <==> !user_body.spec_valid(),
        (r matches RegisterOutcome::Invalid(errs) ==> final(store)@ == old(store)@ && errs@.len()
            == user_body.spec_validation_errors().len() && forall|i: int|
            0 <= i < errs@.len() ==> (#[trigger] errs@[i])@
                == user_body.spec_validation_errors()[i]),
        r is Registered ==> user_body.spec_valid() && !has_username(
            old(store)@.users,
            user_body.username@,
        ) && (exists|u: User|
            {
                &&& final(store)@.users == #[trigger] old(store)@.users.push(u)
                &&& u.name == user_body.name
                &&& u.username == user_body.username
                &&& u.license_game_stage == 0
                &&& spec_password_verifies(user_body.password@, u.password_digest@)
            }) && final(store)@.sessions == old(store)@.sessions && final(store)@.games == old(store)@.games,
        r is Failed ==> final(store)@ == old(store)@,
        user_body.spec_valid() && has_username(old(store)@.users, user_body.username@) ==> r
            is Failed,
{
    match user_body.is_valid() {
        Err(errors) => {
            return RegisterOutcome::Invalid(errors);
        },
        Ok(()) => {},
    }
    match create_user(store, user_body.name, user_body.username, user_body.password, 0) {
        Ok(u) => {
            proof {
                assert(final(store)@.users == old(store)@.users.push(u));
            }
            RegisterOutcome::Registered
        },
        Err(_) => RegisterOutcome::Failed,
    }
}

/// A login request body.
pub struct LoginBody {
    pub username: String,
    pub password: String,
}

/// What a successful login answers: the session token, the licensed flag,
/// and, for an unlicensed account, the puzzle prompt split into lines.
pub struct LoginResponse {
    pub token: String,
    pub licensed: bool,
    pub incoming_message: Option<Vec<String>>,
}

/// How a login request ends.
pub enum LoginOutcome {
    LoggedIn(LoginResponse),
    /// Unknown username or wrong password; the two are not distinguished.
    InvalidCredentials,
    /// The session row could not be stored.
    Failed,
}

impl LoginOutcome {
    pub open spec fn spec_status(&self) -> u16 {
        match self {
            LoginOutcome::LoggedIn(_) => 200,
            LoginOutcome::InvalidCredentials => 400,
            LoginOutcome::Failed => 500,
        }
    }

    pub fn status(&self) -> (s: u16)
        ensures
            s == self.spec_status(),
    {
        match self {
            LoginOutcome::LoggedIn(_) => 200,
            LoginOutcome::InvalidCredentials => 400,
            LoginOutcome::Failed => 500,
        }
    }
}

/// Log an account in: succeeds exactly when the username exists and the
/// password verifies against its digest; a fresh session is then stored
/// under the supplied token, and an unlicensed account additionally gets
/// the puzzle prompt.
pub fn login(
    store: &mut Store,
    login_body: LoginBody,
    session_token: u128,
    now: i64,
    strings: &GameStrings,
) -> (r: LoginOutcome)
    requires
        old(store).wf(),
    ensures
        final(store).wf(),
        ({
            let users0 = old(store)@.users;
            let known = has_username(users0, login_body.username@);
            let user = spec_user_by_name(users0, login_body.username@);
            let pw_ok = known && spec_password_verifies(
                login_body.password@,
                user.password_digest@,
            );
            &&& (r is InvalidCredentials <==> !pw_ok)
            &&& (r is InvalidCredentials ==> final(store)@ == old(store)@)
            &&& (r is Failed ==> pw_ok && has_session(old(store)@.sessions, session_token) && final(store)@ == old(store)@)
            &&& (r matches LoginOutcome::LoggedIn(resp) ==> pw_ok && !has_session(
                old(store)@.sessions,
                session_token,
            ) && final(store)@.sessions == old(store)@.sessions.push(
                (Session { token: session_token, user_id: user.id, last_used: now }),
            ) && final(store)@.users == users0 && final(store)@.games == old(store)@.games
                && resp.token@ == spec_token_text(session_token) && resp.licensed
                == user.spec_licensed() && (user.spec_licensed() ==> resp.incoming_message is None)
                && (!user.spec_licensed() ==> (resp.incoming_message matches Some(lines)
                && lines@.len() == spec_split_lines(spec_puzzle_message(strings)).len() && forall|
                i: int,
            |
                0 <= i < lines@.len() ==> (#[trigger] lines@[i])@ == spec_split_lines(
                    spec_puzzle_message(strings),
                )[i])))
        }),
{
    let user = match store.get_user_by_username(&login_body.username) {
        Some(u) => u,
        None => {
            return LoginOutcome::InvalidCredentials;
        },
    };
    if !verify_password(login_body.password.as_str(), user.password_digest.as_str()) {
        return LoginOutcome::InvalidCredentials;
    }
    let session = Session { token: session_token, user_id: user.id, last_used: now };
    match insert_session(store, session) {
        Ok(()) => {},
        Err(_) => {
            return LoginOutcome::Failed;
        },
    }
    let licensed = user.is_licensed();
    let incoming_message = if !licensed {
        let msg = strings.puzzle_message();
        Some(split_lines(msg.as_str()))
    } else {
        None
    };
    LoginOutcome::LoggedIn(
        LoginResponse { token: format_token(session_token), licensed, incoming_message },
    )
}

/// The profile a bearer token resolves to.
pub struct UserResult {
    pub id: String,
    pub name: String,
    pub username: String,
    pub licensed: bool,
}

/// How a profile request ends.
pub enum UserTokenOutcome {
    Found(UserResult),
    Denied(AuthError),
}

impl UserTokenOutcome {
    pub open spec fn spec_status(&self) -> u16 {
        match self {
            UserTokenOutcome::Found(_) => 200,
            UserTokenOutcome::Denied(e) => e.spec_status(),
        }
    }

    pub fn status(&self) -> (s: u16)
        ensures
            s == self.spec_status(),
    {
        match self {
            UserTokenOutcome::Found(_) => 200,
            UserTokenOutcome::Denied(e) => e.status(),
        }
    }
}

/// Answer a profile request: resolve the bearer header and report the
/// account's identifier, names and licensed flag.
pub fn get_user_by_token(store: &mut Store, auth_header: Option<&String>, now: i64) -> (r:
    UserTokenOutcome)
    requires
        old(store).wf(),
    ensures
        final(store).wf(),
        ({
            let (s1, res) = spec_resolve(old(store)@, spec_header(auth_header), now);
            &&& final(store)@ == s1
            &&& match r {
                UserTokenOutcome::Denied(e) => res == Err::<(User, Session), AuthError>(e),
                UserTokenOutcome::Found(ur) => res matches Ok((u, _)) && ur.id@ == spec_token_text(
                    u.id,
                ) && ur.name == u.name && ur.username == u.username && ur.licensed
                    == u.spec_licensed(),
            }
        }),
{
    match get_user_by_auth_header(store, auth_header, now) {
        Ok((user, _session)) => {
            let licensed = user.is_licensed();
            UserTokenOutcome::Found(
                UserResult {
                    id: format_token(user.id),
                    licensed,
                    name: user.name,
                    username: user.username,
                },
            )
        },
        Err(e) => UserTokenOutcome::Denied(e),
    }
}

/// The authentication routes this surface contributes.
pub struct UserRouter;

impl Routable for UserRouter {
    open spec fn spec_routes(&self) -> Seq<(Verb, Seq<char>, HandlerId)> {
        seq![
            (Verb::Post, "/register"@, HandlerId::RegisterUser),
            (Verb::Post, "/login"@, HandlerId::Login),
            (Verb::Get, "/user"@, HandlerId::GetUser),
        ]
    }

    fn routes(&self) -> (r: Vec<(Route, HandlerId)>) {
        let mut v: Vec<(Route, HandlerId)> = Vec::new();
        v.push((Route(Verb::Post, String::from_str("/register")), HandlerId::RegisterUser));
        v.push((Route(Verb::Post, String::from_str("/login")), HandlerId::Login));
        v.push((Route(Verb::Get, String::from_str("/user")), HandlerId::GetUser));
        v
    }
}

} // verus!
