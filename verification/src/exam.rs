use rand::Rng;
use vstd::pervasive::unreached;
use vstd::prelude::*;

use crate::models::{
    lemma_fresh_game_incomplete, spec_expect_buzz, spec_expect_fizz, spec_expect_other,
    spec_fresh_game, Game, User, LICENSE_THRESHOLD,
};
use crate::store::{
    delete_game, game_ix, has_game, has_user_id, insert_game,
    lemma_game_ix, lemma_user_ix, reset_license_game_stage, spec_game, spec_user,
    update_game_stage, user_ids_distinct, user_ix, Store, StoreError, StoreView,
};

verus! {

/// Relies on `rand::Rng::gen` over the thread-local generator for a fresh
/// 16-bit challenge magnitude; nothing is assumed of the value drawn.
#[verifier::external_body]
pub fn random_instruction() -> u16 {
    rand::thread_rng().gen()
}

/// The three acknowledgement channels a client can use against its live
/// challenge.
#[derive(Clone, Copy, Debug, PartialEq, Eq, Structural)]
pub enum AckChannel {
    Fizz,
    Buzz,
    Other,
}

/// The account's live challenge, if it has one.
pub open spec fn spec_prior_game(games: Seq<Game>, uid: u128) -> Option<Game> {
    if has_game(games, uid) {
        Some(spec_game(games, uid))
    } else {
        None
    }
}

/// The streak after a challenge request evaluates the prior round: a
/// complete round earns one step, an incomplete or abandoned round costs the
/// whole streak, and with no prior round the streak is untouched.
pub open spec fn spec_streak_after(stage: int, prior: Option<Game>) -> int {
    match prior {
        Some(g) => if g.spec_completed() {
            stage + 1
        } else {
            0
        },
        None => stage,
    }
}

/// The challenge row after one acknowledgement: the chosen channel's flag is
/// set, the rest of the row is untouched.
pub open spec fn spec_ack_game(g: Game, channel: AckChannel) -> Game {
    match channel {
        AckChannel::Fizz => (Game { contacted_fizz: true, ..g }),
        AckChannel::Buzz => (Game { contacted_buzz: true, ..g }),
        AckChannel::Other => (Game { contacted_instructions: true, ..g }),
    }
}

/// One challenge-request step of the exam state machine, for an account
/// that is not yet licensed: evaluate the prior round into the streak, drop
/// the prior row, and either issue a fresh challenge or, when the evaluated
/// round just reached the threshold, issue nothing.
pub open spec fn spec_create_game_instruction(
    s: StoreView,
    uid: u128,
    inst: u16,
    game_token: u128,
) -> (StoreView, User, Option<Game>) {
    let u0 = spec_user(s.users, uid);
    let prior = spec_prior_game(s.games, uid);
    let new_stage = spec_streak_after(u0.license_game_stage as int, prior);
    let u1 = (User { license_game_stage: new_stage as i32, ..u0 });
    let users1 = if prior is Some {
        s.users.update(user_ix(s.users, uid), u1)
    } else {
        s.users
    };
    let cleared = if prior is Some {
        s.games.remove(game_ix(s.games, uid))
    } else {
        s.games
    };
    if new_stage >= LICENSE_THRESHOLD {
        ((StoreView { users: users1, sessions: s.sessions, games: cleared }), u1, None)
    } else {
        let g1 = spec_fresh_game(uid, game_token, inst);
        (
            (StoreView { users: users1, sessions: s.sessions, games: cleared.push(g1) }),
            u1,
            Some(g1),
        )
    }
}

/// The full challenge request, any account: a licensed account is reported
/// as such and nothing is touched; otherwise the machine takes one step.
pub open spec fn spec_next_instruction(s: StoreView, uid: u128, inst: u16, game_token: u128) -> (
    StoreView,
    User,
    Option<Game>,
) {
    if spec_user(s.users, uid).spec_licensed() {
        (s, spec_user(s.users, uid), None)
    } else {
        spec_create_game_instruction(s, uid, inst, game_token)
    }
}

/// Evaluate the account's prior challenge and issue the next one, as the
/// exam state machine prescribes. The caller has already ruled out a
/// licensed account; a `None` challenge in the result means the evaluated
/// round just reached the threshold, so no new challenge was issued.
pub fn create_game_instruction(store: &mut Store, uid: u128, inst: u16, game_token: u128) -> (r: (
    User,
    Option<Game>,
))
    requires
        old(store).wf(),
        has_user_id(old(store)@.users, uid),
        !spec_user(old(store)@.users, uid).spec_licensed(),
    ensures
        final(store).wf(),
        ({
            let (s1, u1, g1) = spec_create_game_instruction(old(store)@, uid, inst, game_token);
            final(store)@ == s1 && r.0 == u1 && r.1 == g1
        }),
{
    let ghost s0 = store@;
    let mut user = match store.get_user(uid) {
        Some(u) => u,
        None => unreached(),
    };
    proof {
        let ix = user_ix(s0.users, uid);
        assert(0 <= ix < s0.users.len() && s0.users[ix].id == uid);
        assert(0 <= s0.users[ix].license_game_stage);
    }
    let prior = store.get_game(uid);
    let mut was_complete = false;
    match &prior {
        Some(g) => {
            proof {
                let gx = game_ix(s0.games, uid);
                assert(0 <= gx < s0.games.len() && s0.games[gx].user_id == uid);
                assert(s0.games[gx].wf());
            }
            if g.instruction_completed() {
                was_complete = true;
                let new_stage = user.license_game_stage + 1;
                user = update_game_stage(store, user, new_stage);
            }
        },
        None => {},
    }
    let deleted = delete_game(store, uid);
    if deleted && !was_complete {
        if !user.is_licensed() {
            user = match reset_license_game_stage(store, user) {
                Ok(u) => u,
                Err(_) => unreached(),
            };
        }
    }
    if user.is_licensed() {
        return (user, None);
    }
    let game = Game {
        user_id: uid,
        token: game_token,
        instruction: inst as i32,
        contacted_fizz: false,
        contacted_buzz: false,
        contacted_instructions: false,
    };
    match insert_game(store, game) {
        Ok(()) => {},
        Err(_) => {
            proof {
                assert(false);
            }
        },
    }
    (user, Some(game))
}

/// Record one acknowledgement against the account's live challenge.
/// Succeeds exactly when the account has a live challenge whose token
/// matches; correctness of the channel is not judged here but at the next
/// challenge request.
pub fn acknowledge(store: &mut Store, uid: u128, instruction_token: u128, channel: AckChannel) -> (r:
    Result<(), StoreError>)
    requires
        old(store).wf(),
    ensures
        final(store).wf(),
        ({
            let games0 = old(store)@.games;
            let matched = has_game(games0, uid) && spec_game(games0, uid).token
                == instruction_token;
            match r {
                Ok(()) => matched && final(store)@.games == games0.update(
                    game_ix(games0, uid),
                    spec_ack_game(spec_game(games0, uid), channel),
                ) && final(store)@.users == old(store)@.users && final(store)@.sessions == old(
                    store,
                )@.sessions,
                Err(e) => e == StoreError::NotFound && !matched && final(store)@ == old(store)@,
            }
        }),
{
    let game = match store.get_game(uid) {
        Some(g) => g,
        None => {
            return Err(StoreError::NotFound);
        },
    };
    if game.token != instruction_token {
        return Err(StoreError::NotFound);
    }
    let ghost s0 = store@;
    let ix = match store.find_game(uid) {
        Some(i) => i,
        None => unreached(),
    };
    proof {
        lemma_game_ix(s0.games, uid, ix as int);
    }
    let updated = match channel {
        AckChannel::Fizz => Game { contacted_fizz: true, ..game },
        AckChannel::Buzz => Game { contacted_buzz: true, ..game },
        AckChannel::Other => Game { contacted_instructions: true, ..game },
    };
    store.games.set(ix, updated);
    proof {
        assert forall|i: int, j: int| 0 <= i < j < store@.games.len() implies #[trigger] store@
            .games[i].user_id != #[trigger] store@.games[j].user_id by {
            assert(s0.games[i].user_id == store@.games[i].user_id);
            assert(s0.games[j].user_id == store@.games[j].user_id);
        }
        assert forall|i: int| 0 <= i < store@.games.len() implies (#[trigger] store@.games[i]).wf()
            by {
            assert(i == ix as int || store@.games[i] == s0.games[i]);
            assert(s0.games[i].wf());
        }
    }
    Ok(())
}

/// Record a `fizz` acknowledgement for the challenge with the given token.
pub fn update_fizz(store: &mut Store, uid: u128, instruction_token: u128) -> (r: Result<
    (),
    StoreError,
>)
    requires
        old(store).wf(),
    ensures
        final(store).wf(),
        ({
            let games0 = old(store)@.games;
            let matched = has_game(games0, uid) && spec_game(games0, uid).token
                == instruction_token;
            match r {
                Ok(()) => matched && final(store)@.games == games0.update(
                    game_ix(games0, uid),
                    spec_ack_game(spec_game(games0, uid), AckChannel::Fizz),
                ) && final(store)@.users == old(store)@.users && final(store)@.sessions == old(
                    store,
                )@.sessions,
                Err(e) => e == StoreError::NotFound && !matched && final(store)@ == old(store)@,
            }
        }),
{
    acknowledge(store, uid, instruction_token, AckChannel::Fizz)
}

/// Record a `buzz` acknowledgement for the challenge with the given token.
pub fn update_buzz(store: &mut Store, uid: u128, instruction_token: u128) -> (r: Result<
    (),
    StoreError,
>)
    requires
        old(store).wf(),
    ensures
        final(store).wf(),
        ({
            let games0 = old(store)@.games;
            let matched = has_game(games0, uid) && spec_game(games0, uid).token
                == instruction_token;
            match r {
                Ok(()) => matched && final(store)@.games == games0.update(
                    game_ix(games0, uid),
                    spec_ack_game(spec_game(games0, uid), AckChannel::Buzz),
                ) && final(store)@.users == old(store)@.users && final(store)@.sessions == old(
                    store,
                )@.sessions,
                Err(e) => e == StoreError::NotFound && !matched && final(store)@ == old(store)@,
            }
        }),
{
    acknowledge(store, uid, instruction_token, AckChannel::Buzz)
}

/// Record an `other` acknowledgement for the challenge with the given token.
pub fn update_instructions(store: &mut Store, uid: u128, instruction_token: u128) -> (r: Result<
    (),
    StoreError,
>)
    requires
        old(store).wf(),
    ensures
        final(store).wf(),
        ({
            let games0 = old(store)@.games;
            let matched = has_game(games0, uid) && spec_game(games0, uid).token
                == instruction_token;
            match r {
                Ok(()) => matched && final(store)@.games == games0.update(
                    game_ix(games0, uid),
                    spec_ack_game(spec_game(games0, uid), AckChannel::Other),
                ) && final(store)@.users == old(store)@.users && final(store)@.sessions == old(
                    store,
                )@.sessions,
                Err(e) => e == StoreError::NotFound && !matched && final(store)@ == old(store)@,
            }
        }),
{
    acknowledge(store, uid, instruction_token, AckChannel::Other)
}


/// What one machine step leaves behind: the invariant still holds, the
/// account's row carries the evaluated streak, and either a fresh untouched
/// challenge is live for the account, or the account just became licensed
/// and has none.
pub proof fn lemma_request_challenge_state(s: StoreView, uid: u128, inst: u16, game_token: u128)
    requires
        s.wf(),
        has_user_id(s.users, uid),
        !spec_user(s.users, uid).spec_licensed(),
    ensures
        ({
            let (s1, u1, g1) = spec_create_game_instruction(s, uid, inst, game_token);
            &&& s1.wf()
            &&& s1.sessions == s.sessions
            &&& has_user_id(s1.users, uid)
            &&& spec_user(s1.users, uid) == u1
            &&& u1.id == uid
            &&& 0 <= u1.license_game_stage
            &&& u1.license_game_stage == spec_streak_after(
                spec_user(s.users, uid).license_game_stage as int,
                spec_prior_game(s.games, uid),
            )
            &&& (g1 matches Some(g) ==> g == spec_fresh_game(uid, game_token, inst) && has_game(
                s1.games,
                uid,
            ) && spec_game(s1.games, uid) == g && !u1.spec_licensed())
            &&& (g1 is None ==> u1.spec_licensed() && !has_game(s1.games, uid))
        }),
{
    let u0 = spec_user(s.users, uid);
    let ix = user_ix(s.users, uid);
    assert(0 <= ix < s.users.len() && s.users[ix].id == uid);
    assert(0 <= s.users[ix].license_game_stage);
    let prior = spec_prior_game(s.games, uid);
    if prior is Some {
        let gx = game_ix(s.games, uid);
        assert(0 <= gx < s.games.len() && s.games[gx].user_id == uid);
    }
    let new_stage = spec_streak_after(u0.license_game_stage as int, prior);
    assert(0 <= new_stage <= LICENSE_THRESHOLD);
    let u1 = (User { license_game_stage: new_stage as i32, ..u0 });
    let users1 = if prior is Some {
        s.users.update(ix, u1)
    } else {
        s.users
    };
    assert forall|i: int| 0 <= i < users1.len() implies #[trigger] users1[i].id == s.users[i].id
        && users1[i].username@ == s.users[i].username@ && 0 <= users1[i].license_game_stage by {
        if prior is Some && i == ix {
            assert(users1[i] == u1);
        } else {
            assert(users1[i] == s.users[i]);
        }
        assert(0 <= s.users[i].license_game_stage);
    }
    assert forall|i: int, j: int| 0 <= i < j < users1.len() implies #[trigger] users1[i].id
        != #[trigger] users1[j].id by {
        assert(users1[i].id == s.users[i].id);
        assert(users1[j].id == s.users[j].id);
    }
    assert forall|i: int, j: int| 0 <= i < j < users1.len() implies #[trigger] users1[i].username@
        != #[trigger] users1[j].username@ by {
        assert(users1[i].username@ == s.users[i].username@);
        assert(users1[j].username@ == s.users[j].username@);
    }
    assert(users1[ix] == u1);
    lemma_user_ix(users1, uid, ix);
    let cleared = if prior is Some {
        s.games.remove(game_ix(s.games, uid))
    } else {
        s.games
    };
    let gx = game_ix(s.games, uid);
    assert forall|i: int| 0 <= i < cleared.len() implies (#[trigger] cleared[i]).wf()
        && cleared[i].user_id != uid by {
        if prior is Some {
            let i0 = if i < gx {
                i
            } else {
                i + 1
            };
            assert(cleared[i] == s.games[i0]);
            assert(s.games[i0].wf());
            if i0 != gx {
                if i0 < gx {
                    assert(s.games[i0].user_id != s.games[gx].user_id);
                } else {
                    assert(s.games[gx].user_id != s.games[i0].user_id);
                }
            }
        } else {
            assert(cleared[i] == s.games[i]);
            assert(s.games[i].wf());
            assert(!has_game(s.games, uid));
        }
    }
    assert forall|i: int, j: int| 0 <= i < j < cleared.len() implies #[trigger] cleared[i].user_id
        != #[trigger] cleared[j].user_id by {
        if prior is Some {
            let i0 = if i < gx {
                i
            } else {
                i + 1
            };
            let j0 = if j < gx {
                j
            } else {
                j + 1
            };
            assert(cleared[i] == s.games[i0]);
            assert(cleared[j] == s.games[j0]);
        } else {
            assert(cleared[i] == s.games[i]);
            assert(cleared[j] == s.games[j]);
        }
    }
    if new_stage >= LICENSE_THRESHOLD {
        assert(!has_game(cleared, uid));
    } else {
        let g1 = spec_fresh_game(uid, game_token, inst);
        let games1 = cleared.push(g1);
        assert forall|i: int, j: int| 0 <= i < j < games1.len() implies #[trigger] games1[i].user_id
            != #[trigger] games1[j].user_id by {
            if j < cleared.len() {
                assert(games1[i] == cleared[i]);
                assert(games1[j] == cleared[j]);
            } else {
                assert(games1[j] == g1);
                assert(games1[i] == cleared[i]);
            }
        }
        assert forall|i: int| 0 <= i < games1.len() implies (#[trigger] games1[i]).wf() by {
            if i < cleared.len() {
                assert(games1[i] == cleared[i]);
            } else {
                assert(games1[i] == g1);
            }
        }
        assert(games1[cleared.len() as int] == g1);
        lemma_game_ix(games1, uid, cleared.len() as int);
    }
}

/// Requesting a challenge twice in a row with no acknowledgement in between
/// always resets the streak to zero at the second request (when the first
/// left the account unlicensed), and never increments it: the challenge
/// standing at the second request is fresh, and a fresh challenge is never
/// complete.
pub proof fn lemma_two_requests_reset(
    s: StoreView,
    uid: u128,
    i1: u16,
    t1: u128,
    i2: u16,
    t2: u128,
)
    requires
        s.wf(),
        has_user_id(s.users, uid),
        !spec_user(s.users, uid).spec_licensed(),
    ensures
        ({
            let (s1, u1, g1) = spec_create_game_instruction(s, uid, i1, t1);
            !u1.spec_licensed() ==> {
                let (s2, u2, g2) = spec_create_game_instruction(s1, uid, i2, t2);
                u2.license_game_stage == 0 && u2.license_game_stage != u1.license_game_stage + 1
            }
        }),
{
    lemma_request_challenge_state(s, uid, i1, t1);
    let (s1, u1, g1) = spec_create_game_instruction(s, uid, i1, t1);
    if !u1.spec_licensed() {
        let g = g1->Some_0;
        lemma_fresh_game_incomplete(uid, t1, i1);
        assert(spec_prior_game(s1.games, uid) == Some(g));
        assert(spec_streak_after(u1.license_game_stage as int, Some(g)) == 0);
    }
}

/// A challenge acknowledged on exactly its correct channels is complete, so
/// the next challenge request increments the streak by exactly one.
pub proof fn lemma_completed_round_increments(s: StoreView, uid: u128, inst: u16, game_token: u128)
    requires
        s.wf(),
        has_user_id(s.users, uid),
        !spec_user(s.users, uid).spec_licensed(),
        has_game(s.games, uid),
        spec_game(s.games, uid).spec_completed(),
    ensures
        spec_create_game_instruction(s, uid, inst, game_token).1.license_game_stage == spec_user(
            s.users,
            uid,
        ).license_game_stage + 1,
{
    let ix = user_ix(s.users, uid);
    assert(0 <= ix < s.users.len() && s.users[ix].id == uid);
    assert(0 <= s.users[ix].license_game_stage);
}

/// Acknowledging a fresh challenge on each of its expected channels, and on
/// no other, leaves it complete; each acknowledgement sets one flag
/// independently, so the order the three calls arrive in does not matter.
pub proof fn lemma_expected_acks_complete(uid: u128, token: u128, inst: u16)
    ensures
        ({
            let g0 = spec_fresh_game(uid, token, inst);
            let g1 = if spec_expect_fizz(inst as int) {
                spec_ack_game(g0, AckChannel::Fizz)
            } else {
                g0
            };
            let g2 = if spec_expect_buzz(inst as int) {
                spec_ack_game(g1, AckChannel::Buzz)
            } else {
                g1
            };
            let g3 = if spec_expect_other(inst as int) {
                spec_ack_game(g2, AckChannel::Other)
            } else {
                g2
            };
            g3.spec_completed()
        }),
{
}

/// Repeating an acknowledgement on the same channel changes nothing: an
/// acknowledgement only sets that channel's flag.
pub proof fn lemma_ack_idempotent(g: Game, channel: AckChannel)
    ensures
        spec_ack_game(spec_ack_game(g, channel), channel) == spec_ack_game(g, channel),
{
}

/// Acknowledgements on two channels land the same whichever arrives first:
/// the flags record what was used, not when.
pub proof fn lemma_ack_order_independent(g: Game, c1: AckChannel, c2: AckChannel)
    ensures
        spec_ack_game(spec_ack_game(g, c1), c2) == spec_ack_game(spec_ack_game(g, c2), c1),
{
}

/// A licensed account short-circuits: a challenge request reports the exam
/// as already passed, issues nothing, and leaves the store untouched.
pub proof fn lemma_licensed_short_circuit(s: StoreView, uid: u128, inst: u16, game_token: u128)
    requires
        spec_user(s.users, uid).spec_licensed(),
    ensures
        spec_next_instruction(s, uid, inst, game_token).0 == s,
        spec_next_instruction(s, uid, inst, game_token).1 == spec_user(s.users, uid),
        spec_next_instruction(s, uid, inst, game_token).2 is None,
{
}

/// Licensing is permanent: no challenge request, for this account or any
/// other, takes a licensed account back below the threshold.
pub proof fn lemma_licensed_permanent(
    s: StoreView,
    uid: u128,
    uid2: u128,
    inst: u16,
    game_token: u128,
)
    requires
        s.wf(),
        has_user_id(s.users, uid),
        spec_user(s.users, uid).spec_licensed(),
        has_user_id(s.users, uid2),
    ensures
        ({
            let s1 = spec_next_instruction(s, uid2, inst, game_token).0;
            has_user_id(s1.users, uid) && spec_user(s1.users, uid).spec_licensed()
        }),
{
    if spec_user(s.users, uid2).spec_licensed() {
    } else {
        assert(uid2 != uid);
        lemma_request_challenge_state(s, uid2, inst, game_token);
        let (s1, u1, g1) = spec_create_game_instruction(s, uid2, inst, game_token);
        let ix = user_ix(s.users, uid);
        let ix2 = user_ix(s.users, uid2);
        assert(0 <= ix < s.users.len() && s.users[ix].id == uid);
        assert(0 <= ix2 < s.users.len() && s.users[ix2].id == uid2);
        assert(ix != ix2);
        assert(s1.users[ix] == s.users[ix]);
        assert(user_ids_distinct(s1.users));
        lemma_user_ix(s1.users, uid, ix);
    }
}

} // verus!
