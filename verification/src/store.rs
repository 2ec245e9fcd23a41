use vstd::prelude::*;

use crate::credentials::{hash_password, spec_password_verifies};
use crate::models::{Game, Session, User};
use crate::tokens::fresh_token;

verus! {

/// The mathematical contents of the credential store: the three tables as
/// sequences of rows.
pub struct StoreView {
    pub users: Seq<User>,
    pub sessions: Seq<Session>,
    pub games: Seq<Game>,
}

/// Whether some account row carries the given identifier.
pub open spec fn has_user_id(users: Seq<User>, id: u128) -> bool {
    exists|i: int| 0 <= i < users.len() && users[i].id == id
}

/// Index of the account row with the given identifier (unique in a
/// well-formed store).
pub open spec fn user_ix(users: Seq<User>, id: u128) -> int {
    choose|i: int| 0 <= i < users.len() && users[i].id == id
}

/// The account row with the given identifier.
pub open spec fn spec_user(users: Seq<User>, id: u128) -> User {
    users[user_ix(users, id)]
}

/// Whether some account row carries the given username.
pub open spec fn has_username(users: Seq<User>, name: Seq<char>) -> bool {
    exists|i: int| 0 <= i < users.len() && users[i].username@ == name
}

/// Index of the account row with the given username (unique in a
/// well-formed store).
pub open spec fn username_ix(users: Seq<User>, name: Seq<char>) -> int {
    choose|i: int| 0 <= i < users.len() && users[i].username@ == name
}

/// The account row with the given username.
pub open spec fn spec_user_by_name(users: Seq<User>, name: Seq<char>) -> User {
    users[username_ix(users, name)]
}

/// Whether some session row carries the given token.
pub open spec fn has_session(sessions: Seq<Session>, token: u128) -> bool {
    exists|i: int| 0 <= i < sessions.len() && sessions[i].token == token
}

/// Index of the session row with the given token (unique in a well-formed
/// store).
pub open spec fn session_ix(sessions: Seq<Session>, token: u128) -> int {
    choose|i: int| 0 <= i < sessions.len() && sessions[i].token == token
}

/// The session row with the given token.
pub open spec fn spec_session(sessions: Seq<Session>, token: u128) -> Session {
    sessions[session_ix(sessions, token)]
}

/// Whether the account has a live challenge row.
pub open spec fn has_game(games: Seq<Game>, uid: u128) -> bool {
    exists|i: int| 0 <= i < games.len() && games[i].user_id == uid
}

/// Index of the account's challenge row (the account id is the natural key,
/// so it is unique in a well-formed store).
pub open spec fn game_ix(games: Seq<Game>, uid: u128) -> int {
    choose|i: int| 0 <= i < games.len() && games[i].user_id == uid
}

/// The account's challenge row.
pub open spec fn spec_game(games: Seq<Game>, uid: u128) -> Game {
    games[game_ix(games, uid)]
}

/// No two account rows share an identifier.
pub open spec fn user_ids_distinct(users: Seq<User>) -> bool {
    forall|i: int, j: int|
        0 <= i < j < users.len() ==> #[trigger] users[i].id != #[trigger] users[j].id
}

/// No two account rows share a username.
pub open spec fn usernames_distinct(users: Seq<User>) -> bool {
    forall|i: int, j: int|
        0 <= i < j < users.len() ==> #[trigger] users[i].username@ != #[trigger] users[j].username@
}

/// Every stored streak is a count, never negative.
pub open spec fn stages_nonneg(users: Seq<User>) -> bool {
    forall|i: int| 0 <= i < users.len() ==> 0 <= #[trigger] users[i].license_game_stage
}

/// No two session rows share a token.
pub open spec fn session_tokens_distinct(sessions: Seq<Session>) -> bool {
    forall|i: int, j: int|
        0 <= i < j < sessions.len() ==> #[trigger] sessions[i].token != #[trigger] sessions[j].token
}

/// At most one live challenge per account.
pub open spec fn game_owners_distinct(games: Seq<Game>) -> bool {
    forall|i: int, j: int|
        0 <= i < j < games.len() ==> #[trigger] games[i].user_id != #[trigger] games[j].user_id
}

/// Every challenge row holds a magnitude in the 16-bit range.
pub open spec fn games_wf(games: Seq<Game>) -> bool {
    forall|i: int| 0 <= i < games.len() ==> (#[trigger] games[i]).wf()
}

impl StoreView {
    /// Invariant the store keeps: the uniqueness constraints of the three
    /// tables, and the row-level bounds.
    pub open spec fn wf(&self) -> bool {
        &&& user_ids_distinct(self.users)
        &&& usernames_distinct(self.users)
        &&& stages_nonneg(self.users)
        &&& session_tokens_distinct(self.sessions)
        &&& game_owners_distinct(self.games)
        &&& games_wf(self.games)
    }
}

/// In-memory credential store: accounts, sessions, and the live challenge
/// rows. All operations are serialized by whoever owns the store.
pub struct Store {
    pub users: Vec<User>,
    pub sessions: Vec<Session>,
    pub games: Vec<Game>,
}

impl View for Store {
    type V = StoreView;

    open spec fn view(&self) -> StoreView {
        StoreView { users: self.users@, sessions: self.sessions@, games: self.games@ }
    }
}

/// How a store operation can fail.
#[derive(Clone, Copy, Debug, PartialEq, Eq, Structural)]
pub enum StoreError {
    /// A uniqueness constraint would be violated.
    Conflict,
    /// The addressed row does not exist.
    NotFound,
    /// An internal capability (such as password hashing) failed.
    Internal,
}

/// If an index holds a row with the wanted identifier, it is the row that
/// the selector functions denote.
pub proof fn lemma_user_ix(users: Seq<User>, id: u128, i: int)
    requires
        user_ids_distinct(users),
        0 <= i < users.len(),
        users[i].id == id,
    ensures
        has_user_id(users, id),
        user_ix(users, id) == i,
        spec_user(users, id) == users[i],
{
    assert(has_user_id(users, id));
    let j = user_ix(users, id);
    if i < j {
        assert(users[i].id != users[j].id);
    } else if j < i {
        assert(users[j].id != users[i].id);
    }
}

/// Same, selecting by username.
pub proof fn lemma_username_ix(users: Seq<User>, name: Seq<char>, i: int)
    requires
        usernames_distinct(users),
        0 <= i < users.len(),
        users[i].username@ == name,
    ensures
        has_username(users, name),
        username_ix(users, name) == i,
        spec_user_by_name(users, name) == users[i],
{
    assert(has_username(users, name));
    let j = username_ix(users, name);
    if i < j {
        assert(users[i].username@ != users[j].username@);
    } else if j < i {
        assert(users[j].username@ != users[i].username@);
    }
}

/// Same, selecting a session by token.
pub proof fn lemma_session_ix(sessions: Seq<Session>, token: u128, i: int)
    requires
        session_tokens_distinct(sessions),
        0 <= i < sessions.len(),
        sessions[i].token == token,
    ensures
        has_session(sessions, token),
        session_ix(sessions, token) == i,
        spec_session(sessions, token) == sessions[i],
{
    assert(has_session(sessions, token));
    let j = session_ix(sessions, token);
    if i < j {
        assert(sessions[i].token != sessions[j].token);
    } else if j < i {
        assert(sessions[j].token != sessions[i].token);
    }
}

/// Same, selecting a challenge by owning account.
pub proof fn lemma_game_ix(games: Seq<Game>, uid: u128, i: int)
    requires
        game_owners_distinct(games),
        0 <= i < games.len(),
        games[i].user_id == uid,
    ensures
        has_game(games, uid),
        game_ix(games, uid) == i,
        spec_game(games, uid) == games[i],
{
    assert(has_game(games, uid));
    let j = game_ix(games, uid);
    if i < j {
        assert(games[i].user_id != games[j].user_id);
    } else if j < i {
        assert(games[j].user_id != games[i].user_id);
    }
}

impl Store {
    pub open spec fn wf(&self) -> bool {
        self@.wf()
    }

    /// An empty store.
    pub fn new() -> (r: Store)
        ensures
            r.wf(),
            r@.users =~= Seq::<User>::empty(),
            r@.sessions =~= Seq::<Session>::empty(),
            r@.games =~= Seq::<Game>::empty(),
    {
        Store { users: Vec::new(), sessions: Vec::new(), games: Vec::new() }
    }

    /// Index of the account row with the given identifier, if any.
    fn find_user_by_id(&self, id: u128) -> (r: Option<usize>)
        ensures
            match r {
                Some(i) => i < self.users@.len() && self.users@[i as int].id == id,
                None => !has_user_id(self@.users, id),
            },
    {
        let mut i: usize = 0;
        while i < self.users.len()
            invariant
                i <= self.users@.len(),
                forall|k: int| 0 <= k < i ==> #[trigger] self.users@[k].id != id,
            decreases self.users@.len() - i,
        {
            if self.users[i].id == id {
                return Some(i);
            }
            i += 1;
        }
        None
    }

    /// Index of the account row with the given username, if any.
    fn find_user_by_username(&self, username: &String) -> (r: Option<usize>)
        ensures
            match r {
                Some(i) => i < self.users@.len() && self.users@[i as int].username@ == username@,
                None => !has_username(self@.users, username@),
            },
    {
        let mut i: usize = 0;
        while i < self.users.len()
            invariant
                i <= self.users@.len(),
                forall|k: int| 0 <= k < i ==> #[trigger] self.users@[k].username@ != username@,
            decreases self.users@.len() - i,
        {
            if self.users[i].username == *username {
                return Some(i);
            }
            i += 1;
        }
        None
    }

    /// Index of the session row with the given token, if any.
    fn find_session(&self, token: u128) -> (r: Option<usize>)
        ensures
            match r {
                Some(i) => i < self.sessions@.len() && self.sessions@[i as int].token == token,
                None => !has_session(self@.sessions, token),
            },
    {
        let mut i: usize = 0;
        while i < self.sessions.len()
            invariant
                i <= self.sessions@.len(),
                forall|k: int| 0 <= k < i ==> #[trigger] self.sessions@[k].token != token,
            decreases self.sessions@.len() - i,
        {
            if self.sessions[i].token == token {
                return Some(i);
            }
            i += 1;
        }
        None
    }

    /// Index of the account's challenge row, if any.
    pub(crate) fn find_game(&self, uid: u128) -> (r: Option<usize>)
        ensures
            match r {
                Some(i) => i < self.games@.len() && self.games@[i as int].user_id == uid,
                None => !has_game(self@.games, uid),
            },
    {
        let mut i: usize = 0;
        while i < self.games.len()
            invariant
                i <= self.games@.len(),
                forall|k: int| 0 <= k < i ==> #[trigger] self.games@[k].user_id != uid,
            decreases self.games@.len() - i,
        {
            if self.games[i].user_id == uid {
                return Some(i);
            }
            i += 1;
        }
        None
    }

    /// Look up an account by identifier, returning a copy of the row.
    pub fn get_user(&self, id: u128) -> (r: Option<User>)
        requires
            self.wf(),
        ensures
            match r {
                Some(u) => has_user_id(self@.users, id) && u == spec_user(self@.users, id),
                None => !has_user_id(self@.users, id),
            },
    {
        match self.find_user_by_id(id) {
            Some(i) => {
                proof {
                    lemma_user_ix(self@.users, id, i as int);
                }
                Some(self.users[i].clone())
            },
            None => None,
        }
    }

    /// Look up an account by username, returning a copy of the row.
    pub fn get_user_by_username(&self, username: &String) -> (r: Option<User>)
        requires
            self.wf(),
        ensures
            match r {
                Some(u) => has_username(self@.users, username@) && u == spec_user_by_name(
                    self@.users,
                    username@,
                ),
                None => !has_username(self@.users, username@),
            },
    {
        match self.find_user_by_username(username) {
            Some(i) => {
                proof {
                    lemma_username_ix(self@.users, username@, i as int);
                }
                Some(self.users[i].clone())
            },
            None => None,
        }
    }

    /// Look up a session by token, returning a copy of the row.
    pub fn get_session(&self, token: u128) -> (r: Option<Session>)
        requires
            self.wf(),
        ensures
            match r {
                Some(s) => has_session(self@.sessions, token) && s == spec_session(
                    self@.sessions,
                    token,
                ),
                None => !has_session(self@.sessions, token),
            },
    {
        match self.find_session(token) {
            Some(i) => {
                proof {
                    lemma_session_ix(self@.sessions, token, i as int);
                }
                Some(self.sessions[i])
            },
            None => None,
        }
    }

    /// Look up the account's challenge row, returning a copy.
    pub fn get_game(&self, uid: u128) -> (r: Option<Game>)
        requires
            self.wf(),
        ensures
            match r {
                Some(g) => has_game(self@.games, uid) && g == spec_game(self@.games, uid),
                None => !has_game(self@.games, uid),
            },
    {
        match self.find_game(uid) {
            Some(i) => {
                proof {
                    lemma_game_ix(self@.games, uid, i as int);
                }
                Some(self.games[i])
            },
            None => None,
        }
    }
}

/// Insert a fully-formed account row. Succeeds exactly when neither its
/// identifier nor its username is already taken (the store's uniqueness
/// constraints).
pub fn insert_user(store: &mut Store, user: User) -> (r: Result<(), StoreError>)
    requires
        old(store).wf(),
        0 <= user.license_game_stage,
    ensures
        final(store).wf(),
        match r {
            Ok(()) => !has_user_id(old(store)@.users, user.id) && !has_username(
                old(store)@.users,
                user.username@,
            ) && final(store)@.users == old(store)@.users.push(user) && final(store)@.sessions
                == old(store)@.sessions && final(store)@.games == old(store)@.games,
            Err(e) => e == StoreError::Conflict && (has_user_id(old(store)@.users, user.id)
                || has_username(old(store)@.users, user.username@)) && final(store)@ == old(store)@,
        },
{
    if store.find_user_by_id(user.id).is_some() {
        return Err(StoreError::Conflict);
    }
    if store.find_user_by_username(&user.username).is_some() {
        return Err(StoreError::Conflict);
    }
    let ghost old_users = store@.users;
    store.users.push(user);
    proof {
        assert forall|i: int, j: int| 0 <= i < j < store@.users.len() implies #[trigger] store@
            .users[i].id != #[trigger] store@.users[j].id by {
            if j < old_users.len() {
            } else {
                assert(store@.users[j] == user);
                assert(!has_user_id(old_users, user.id));
            }
        }
        assert forall|i: int, j: int| 0 <= i < j < store@.users.len() implies #[trigger] store@
            .users[i].username@ != #[trigger] store@.users[j].username@ by {
            if j < old_users.len() {
            } else {
                assert(store@.users[j] == user);
                assert(!has_username(old_users, user.username@));
            }
        }
    }
    Ok(())
}

/// Insert a session row. Succeeds exactly when the token is not already in
/// use.
pub fn insert_session(store: &mut Store, session: Session) -> (r: Result<(), StoreError>)
    requires
        old(store).wf(),
    ensures
        final(store).wf(),
        match r {
            Ok(()) => !has_session(old(store)@.sessions, session.token) && final(store)@.sessions
                == old(store)@.sessions.push(session) && final(store)@.users == old(store)@.users
                && final(store)@.games == old(store)@.games,
            Err(e) => e == StoreError::Conflict && has_session(old(store)@.sessions, session.token)
                && final(store)@ == old(store)@,
        },
{
    if store.find_session(session.token).is_some() {
        return Err(StoreError::Conflict);
    }
    let ghost old_sessions = store@.sessions;
    store.sessions.push(session);
    proof {
        assert forall|i: int, j: int| 0 <= i < j < store@.sessions.len() implies #[trigger] store@
            .sessions[i].token != #[trigger] store@.sessions[j].token by {
            if j < old_sessions.len() {
            } else {
                assert(store@.sessions[j] == session);
                assert(!has_session(old_sessions, session.token));
            }
        }
    }
    Ok(())
}

/// Insert a challenge row. Succeeds exactly when the account has no live
/// challenge yet.
pub fn insert_game(store: &mut Store, game: Game) -> (r: Result<(), StoreError>)
    requires
        old(store).wf(),
        game.wf(),
    ensures
        final(store).wf(),
        match r {
            Ok(()) => !has_game(old(store)@.games, game.user_id) && final(store)@.games == old(store)@.games.push(game) && final(store)@.users == old(store)@.users && final(store)@.sessions == old(store)@.sessions,
            Err(e) => e == StoreError::Conflict && has_game(old(store)@.games, game.user_id)
                && final(store)@ == old(store)@,
        },
{
    if store.find_game(game.user_id).is_some() {
        return Err(StoreError::Conflict);
    }
    let ghost old_games = store@.games;
    store.games.push(game);
    proof {
        assert forall|i: int, j: int| 0 <= i < j < store@.games.len() implies #[trigger] store@
            .games[i].user_id != #[trigger] store@.games[j].user_id by {
            if j < old_games.len() {
            } else {
                assert(store@.games[j] == game);
                assert(!has_game(old_games, game.user_id));
            }
        }
        assert forall|i: int| 0 <= i < store@.games.len() implies (#[trigger] store@.games[i]).wf()
            by {
            if i < old_games.len() {
            } else {
                assert(store@.games[i] == game);
            }
        }
    }
    Ok(())
}

/// Register a new account: the password is hashed through the credential
/// capability, the identifier is drawn fresh, and the row is inserted under
/// the store's uniqueness constraints. A taken username is always refused;
/// success additionally needs the hashing capability and the identifier
/// draw to cooperate, so it is not owed.
pub fn create_user(
    store: &mut Store,
    name: String,
    username: String,
    password: String,
    license_game_stage: i32,
) -> (r: Result<User, StoreError>)
    requires
        old(store).wf(),
        0 <= license_game_stage,
    ensures
        final(store).wf(),
        match r {
            Ok(u) => u.name == name && u.username == username && u.license_game_stage
                == license_game_stage && spec_password_verifies(password@, u.password_digest@)
                && !has_user_id(old(store)@.users, u.id) && !has_username(
                old(store)@.users,
                username@,
            ) && final(store)@.users == old(store)@.users.push(u) && final(store)@.sessions == old(store)@.sessions && final(store)@.games == old(store)@.games,
            Err(_) => final(store)@ == old(store)@,
        },
        has_username(old(store)@.users, username@) ==> r is Err,
{
    let digest = match hash_password(password.as_str()) {
        Some(d) => d,
        None => {
            return Err(StoreError::Internal);
        },
    };
    let id = fresh_token();
    let user = User {
        id: id,
        name: name,
        username: username,
        password_digest: digest,
        license_game_stage: license_game_stage,
    };
    let result = user.clone();
    match insert_user(store, user) {
        Ok(()) => Ok(result),
        Err(e) => Err(e),
    }
}

/// Set an account's streak back to zero, returning the updated row.
/// Fails exactly when the account does not exist.
pub fn reset_license_game_stage(store: &mut Store, user: User) -> (r: Result<User, StoreError>)
    requires
        old(store).wf(),
    ensures
        final(store).wf(),
        match r {
            Ok(u) => has_user_id(old(store)@.users, user.id) && u == (User {
                license_game_stage: 0,
                ..spec_user(old(store)@.users, user.id)
            }) && final(store)@.users == old(store)@.users.update(
                user_ix(old(store)@.users, user.id),
                u,
            ) && final(store)@.sessions == old(store)@.sessions && final(store)@.games == old(store)@.games,
            Err(e) => e == StoreError::NotFound && !has_user_id(old(store)@.users, user.id) && final(store)@ == old(store)@,
        },
{
    let updated = update_user_stage(store, user.id, 0);
    match updated {
        Some(u) => Ok(u),
        None => Err(StoreError::NotFound),
    }
}

/// Overwrite an account's streak, returning the updated row. The caller
/// must know the account exists.
pub fn update_game_stage(store: &mut Store, user: User, new_stage: i32) -> (r: User)
    requires
        old(store).wf(),
        has_user_id(old(store)@.users, user.id),
        0 <= new_stage,
    ensures
        final(store).wf(),
        r == (User { license_game_stage: new_stage, ..spec_user(old(store)@.users, user.id) }),
        final(store)@.users == old(store)@.users.update(user_ix(old(store)@.users, user.id), r),
        final(store)@.sessions == old(store)@.sessions,
        final(store)@.games == old(store)@.games,
{
    let updated = update_user_stage(store, user.id, new_stage);
    match updated {
        Some(u) => u,
        None => {
            proof {
                assert(false);
            }
            user
        },
    }
}

/// Shared row update for the two streak mutators.
fn update_user_stage(store: &mut Store, id: u128, new_stage: i32) -> (r: Option<User>)
    requires
        old(store).wf(),
        0 <= new_stage,
    ensures
        final(store).wf(),
        match r {
            Some(u) => has_user_id(old(store)@.users, id) && u == (User {
                license_game_stage: new_stage,
                ..spec_user(old(store)@.users, id)
            }) && final(store)@.users == old(store)@.users.update(
                user_ix(old(store)@.users, id),
                u,
            ) && final(store)@.sessions == old(store)@.sessions && final(store)@.games == old(store)@.games,
            None => !has_user_id(old(store)@.users, id) && final(store)@ == old(store)@,
        },
{
    let ix = match store.find_user_by_id(id) {
        Some(i) => i,
        None => {
            return None;
        },
    };
    proof {
        lemma_user_ix(store@.users, id, ix as int);
    }
    let ghost old_users = store@.users;
    let current = store.users[ix].clone();
    let updated = User { license_game_stage: new_stage, ..current };
    let result = updated.clone();
    store.users.set(ix, updated);
    proof {
        assert forall|i: int, j: int| 0 <= i < j < store@.users.len() implies #[trigger] store@
            .users[i].id != #[trigger] store@.users[j].id by {
            assert(old_users[i].id == store@.users[i].id);
            assert(old_users[j].id == store@.users[j].id);
        }
        assert forall|i: int, j: int| 0 <= i < j < store@.users.len() implies #[trigger] store@
            .users[i].username@ != #[trigger] store@.users[j].username@ by {
            assert(old_users[i].username == store@.users[i].username);
            assert(old_users[j].username == store@.users[j].username);
        }
        assert forall|i: int| 0 <= i < store@.users.len() implies 0 <= #[trigger] store@
            .users[i].license_game_stage by {
            assert(i == ix as int || store@.users[i] == old_users[i]);
        }
    }
    Some(result)
}

/// Refresh a session's last-used stamp. Fails exactly when no session
/// carries the token.
pub fn update_session_last_used(store: &mut Store, token: u128, now: i64) -> (r: Result<
    (),
    StoreError,
>)
    requires
        old(store).wf(),
    ensures
        final(store).wf(),
        match r {
            Ok(()) => has_session(old(store)@.sessions, token) && final(store)@.sessions == old(store)@.sessions.update(
                session_ix(old(store)@.sessions, token),
                (Session { last_used: now, ..spec_session(old(store)@.sessions, token) }),
            ) && final(store)@.users == old(store)@.users && final(store)@.games == old(store)@.games,
            Err(e) => e == StoreError::NotFound && !has_session(old(store)@.sessions, token)
                && final(store)@ == old(store)@,
        },
{
    let ix = match store.find_session(token) {
        Some(i) => i,
        None => {
            return Err(StoreError::NotFound);
        },
    };
    proof {
        lemma_session_ix(store@.sessions, token, ix as int);
    }
    let ghost old_sessions = store@.sessions;
    let current = store.sessions[ix];
    let updated = Session { last_used: now, ..current };
    store.sessions.set(ix, updated);
    proof {
        assert forall|i: int, j: int| 0 <= i < j < store@.sessions.len() implies #[trigger] store@
            .sessions[i].token != #[trigger] store@.sessions[j].token by {
            assert(old_sessions[i].token == store@.sessions[i].token);
            assert(old_sessions[j].token == store@.sessions[j].token);
        }
    }
    Ok(())
}

/// Remove the account's challenge row if it has one; reports whether a row
/// was deleted.
pub fn delete_game(store: &mut Store, uid: u128) -> (deleted: bool)
    requires
        old(store).wf(),
    ensures
        final(store).wf(),
        deleted == has_game(old(store)@.games, uid),
        deleted ==> final(store)@.games == old(store)@.games.remove(
            game_ix(old(store)@.games, uid),
        ),
        !deleted ==> final(store)@.games == old(store)@.games,
        final(store)@.users == old(store)@.users,
        final(store)@.sessions == old(store)@.sessions,
        !has_game(final(store)@.games, uid),
{
    let ix = match store.find_game(uid) {
        Some(i) => i,
        None => {
            return false;
        },
    };
    proof {
        lemma_game_ix(store@.games, uid, ix as int);
    }
    let ghost old_games = store@.games;
    store.games.remove(ix);
    proof {
        assert forall|i: int, j: int| 0 <= i < j < store@.games.len() implies #[trigger] store@
            .games[i].user_id != #[trigger] store@.games[j].user_id by {
            let i0 = if i < ix as int {
                i
            } else {
                i + 1
            };
            let j0 = if j < ix as int {
                j
            } else {
                j + 1
            };
            assert(store@.games[i] == old_games[i0]);
            assert(store@.games[j] == old_games[j0]);
        }
        assert forall|i: int| 0 <= i < store@.games.len() implies (#[trigger] store@.games[i]).wf()
            by {
            let i0 = if i < ix as int {
                i
            } else {
                i + 1
            };
            assert(store@.games[i] == old_games[i0]);
        }
        assert forall|i: int| 0 <= i < store@.games.len() implies #[trigger] store@.games[i].user_id
            != uid by {
            let i0 = if i < ix as int {
                i
            } else {
                i + 1
            };
            assert(store@.games[i] == old_games[i0]);
            if i0 != ix as int {
                if i0 < ix as int {
                    assert(old_games[i0].user_id != old_games[ix as int].user_id);
                } else {
                    assert(old_games[ix as int].user_id != old_games[i0].user_id);
                }
            }
        }
    }
    true
}

} // verus!
