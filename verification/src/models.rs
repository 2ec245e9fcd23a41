use vstd::prelude::*;

verus! {

/// Streak an account must reach before it counts as licensed.
pub const LICENSE_THRESHOLD: i32 = 150;

/// An account. The identifier and the session tokens are 128-bit values
/// (the textual form used on the wire is handled by `tokens`).
pub struct User {
    pub id: u128,
    pub name: String,
    pub username: String,
    pub password_digest: String,
    pub license_game_stage: i32,
}

impl User {
    /// An account is licensed once its streak has reached the threshold;
    /// the flag is derived, never stored.
    pub open spec fn spec_licensed(&self) -> bool {
        self.license_game_stage >= LICENSE_THRESHOLD
    }

    pub fn is_licensed(&self) -> (r: bool)
        ensures
            r == self.spec_licensed(),
    {
        self.license_game_stage >= LICENSE_THRESHOLD
    }
}

impl Clone for User {
    fn clone(&self) -> (r: Self)
        ensures
            r == *self,
    {
        User {
            id: self.id,
            name: self.name.clone(),
            username: self.username.clone(),
            password_digest: self.password_digest.clone(),
            license_game_stage: self.license_game_stage,
        }
    }
}

/// A login session: an unguessable bearer token owned by one account.
#[derive(Clone, Copy)]
pub struct Session {
    pub token: u128,
    pub user_id: u128,
    pub last_used: i64,
}

/// The live challenge row for an account: the 16-bit magnitude is stored
/// widened to `i32`, and the three flags record which acknowledgement
/// channels the client has used so far.
#[derive(Clone, Copy)]
pub struct Game {
    pub user_id: u128,
    pub token: u128,
    pub instruction: i32,
    pub contacted_fizz: bool,
    pub contacted_buzz: bool,
    pub contacted_instructions: bool,
}

/// Whether a challenge magnitude calls for the `fizz` channel.
pub open spec fn spec_expect_fizz(n: int) -> bool {
    n % 3 == 0
}

/// Whether a challenge magnitude calls for the `buzz` channel.
pub open spec fn spec_expect_buzz(n: int) -> bool {
    n % 5 == 0
}

/// Whether a challenge magnitude calls for the `other` channel: exactly when
/// neither `fizz` nor `buzz` does.
pub open spec fn spec_expect_other(n: int) -> bool {
    !spec_expect_fizz(n) && !spec_expect_buzz(n)
}

/// For every 16-bit magnitude the expected-channel triple is well defined:
/// `other` is the complement of `fizz || buzz`, at least one channel is
/// always expected, and `other` never coincides with the two divisibility
/// channels. In particular `n == 0` needs no special case.
pub proof fn lemma_expected_channels(n: u16)
    ensures
        spec_expect_other(n as int) == !(spec_expect_fizz(n as int) || spec_expect_buzz(n as int)),
        spec_expect_fizz(n as int) || spec_expect_buzz(n as int) || spec_expect_other(n as int),
        !(spec_expect_other(n as int) && (spec_expect_fizz(n as int) || spec_expect_buzz(
            n as int,
        ))),
{
}

impl Game {
    /// The stored magnitude always fits the 16-bit range it was drawn from.
    pub open spec fn wf(&self) -> bool {
        0 <= self.instruction <= 0xFFFF
    }

    /// A challenge is complete exactly when every acknowledgement flag equals
    /// the channel expected for its magnitude - the correct channels and no
    /// extraneous ones.
    pub open spec fn spec_completed(&self) -> bool {
        &&& self.contacted_fizz == spec_expect_fizz(self.instruction as int)
        &&& self.contacted_buzz == spec_expect_buzz(self.instruction as int)
        &&& self.contacted_instructions == spec_expect_other(self.instruction as int)
    }

    pub fn instruction_completed(&self) -> (r: bool)
        requires
            self.wf(),
        ensures
            r == self.spec_completed(),
    {
        let should_contact_fizz = self.instruction % 3 == 0;
        let should_contact_buzz = self.instruction % 5 == 0;
        let should_contact_neither = !should_contact_fizz && !should_contact_buzz;
        should_contact_fizz == self.contacted_fizz && should_contact_buzz == self.contacted_buzz
            && should_contact_neither == self.contacted_instructions
    }
}

/// A challenge that was just issued carries no acknowledgements yet.
pub open spec fn spec_fresh_game(uid: u128, token: u128, inst: u16) -> Game {
    Game {
        user_id: uid,
        token: token,
        instruction: inst as i32,
        contacted_fizz: false,
        contacted_buzz: false,
        contacted_instructions: false,
    }
}

/// A freshly issued challenge is never complete: when its magnitude expects
/// `fizz` or `buzz` those flags are still false, and otherwise the `other`
/// flag is still false.
pub proof fn lemma_fresh_game_incomplete(uid: u128, token: u128, inst: u16)
    ensures
        !spec_fresh_game(uid, token, inst).spec_completed(),
        spec_fresh_game(uid, token, inst).wf(),
{
}

} // verus!
