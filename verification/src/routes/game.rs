use vstd::prelude::*;
use vstd::string::StringExecFns;

use crate::auth::{get_user_by_auth_header, spec_header, spec_resolve, AuthError};
use crate::exam::{
    create_game_instruction, random_instruction, spec_ack_game, spec_next_instruction,
    update_buzz, update_fizz, update_instructions, AckChannel,
};
use crate::models::{Session, User};
use crate::router::{HandlerId, Routable, Route, Verb};
use crate::store::{game_ix, has_game, has_user_id, spec_game, spec_user, Store, StoreView};
use crate::tokens::{fresh_token, parse_token, spec_parse_token, spec_token_text};

verus! {

/// What a freshly issued challenge answers: the magnitude, the challenge
/// token to acknowledge against, and the current streak.
pub struct InstructionResponse {
    pub id: i32,
    pub token: String,
    pub correct_in_a_row: i32,
}

/// How a challenge request ends.
pub enum NextInstructionOutcome {
    /// A fresh challenge was issued.
    Issued(InstructionResponse),
    /// The account is licensed; nothing further to play.
    AlreadyPassed,
    Denied(AuthError),
}

impl NextInstructionOutcome {
    pub open spec fn spec_status(&self) -> u16 {
        match self {
            NextInstructionOutcome::Issued(_) => 200,
            NextInstructionOutcome::AlreadyPassed => 204,
            NextInstructionOutcome::Denied(e) => e.spec_status(),
        }
    }

    pub fn status(&self) -> (s: u16)
        ensures
            s == self.spec_status(),
    {
        match self {
            NextInstructionOutcome::Issued(_) => 200,
            NextInstructionOutcome::AlreadyPassed => 204,
            NextInstructionOutcome::Denied(e) => e.status(),
        }
    }
}

/// Everything a challenge request guarantees, relating the store before
/// and after to the outcome: authentication errors pass through with the
/// store merely touched, and otherwise the store moved by one machine step
/// for the freshly drawn magnitude and token.
pub open spec fn spec_post_next_instruction(
    s0: StoreView,
    header: Option<Seq<char>>,
    now: i64,
    s_final: StoreView,
    r: NextInstructionOutcome,
) -> bool {
    let (s1, res) = spec_resolve(s0, header, now);
    match r {
        NextInstructionOutcome::Denied(e) => res == Err::<(User, Session), AuthError>(e)
            && s_final == s1,
        NextInstructionOutcome::AlreadyPassed => res is Ok && (exists|inst: u16, gt: u128|
            {
                let step = #[trigger] spec_next_instruction(s1, res->Ok_0.0.id, inst, gt);
                s_final == step.0 && step.2 is None
            }),
        NextInstructionOutcome::Issued(ir) => res is Ok && (exists|inst: u16, gt: u128|
            {
                let step = #[trigger] spec_next_instruction(s1, res->Ok_0.0.id, inst, gt);
                &&& s_final == step.0
                &&& step.2 matches Some(g)
                &&& ir.id == g.instruction
                &&& ir.token@ == spec_token_text(g.token)
                &&& ir.correct_in_a_row == step.1.license_game_stage
            }),
    }
}

/// Answer a challenge request: resolve the caller, then run one step of
/// the exam state machine with a freshly drawn magnitude and challenge
/// token. Whatever the draws returned, the store moves exactly as the
/// machine's transition says for them.
#[verifier::rlimit(60)]
#[verifier::spinoff_prover]
pub fn post_next_instruction(store: &mut Store, auth_header: Option<&String>, now: i64) -> (r:
    NextInstructionOutcome)
    requires
        old(store).wf(),
    ensures
        final(store).wf(),
        spec_post_next_instruction(
            old(store)@,
            spec_header(auth_header),
            now,
            final(store)@,
            r,
        ),
{
    let ghost s_entry = old(store)@;
    let (user, session) = match get_user_by_auth_header(store, auth_header, now) {
        Ok(pair) => pair,
        Err(e) => {
            proof {
                assert(spec_post_next_instruction(
                    s_entry,
                    spec_header(auth_header),
                    now,
                    store@,
                    NextInstructionOutcome::Denied(e),
                ));
            }
            return NextInstructionOutcome::Denied(e);
        },
    };
    let ghost s1 = store@;
    proof {
        crate::auth::lemma_resolver_rejections(s_entry, spec_header(auth_header), now);
        let ix = crate::store::user_ix(s_entry.users, session.user_id);
        assert(0 <= ix < s_entry.users.len() && s_entry.users[ix].id == session.user_id);
        assert(s1.users == s_entry.users);
        assert(has_user_id(s1.users, user.id) && spec_user(s1.users, user.id) == user);
    }
    if user.is_licensed() {
        proof {
            assert(spec_next_instruction(s1, user.id, 0u16, 0u128).0 == s1);
            assert(spec_next_instruction(s1, user.id, 0u16, 0u128).2 is None);
            assert(exists|inst: u16, gt: u128|
                {
                    let step = #[trigger] spec_next_instruction(s1, user.id, inst, gt);
                    store@ == step.0 && step.2 is None
                });
            assert(spec_post_next_instruction(
                s_entry,
                spec_header(auth_header),
                now,
                store@,
                NextInstructionOutcome::AlreadyPassed,
            ));
        }
        return NextInstructionOutcome::AlreadyPassed;
    }
    let inst = random_instruction();
    let game_token = fresh_token();
    let (user1, issued) = create_game_instruction(store, user.id, inst, game_token);
    proof {
        assert(spec_next_instruction(s1, user.id, inst, game_token)
            == crate::exam::spec_create_game_instruction(s1, user.id, inst, game_token));
    }
    match issued {
        None => {
            proof {
                assert(spec_next_instruction(s1, user.id, inst, game_token).2 is None);
                assert(exists|inst2: u16, gt2: u128|
                    {
                        let step = #[trigger] spec_next_instruction(s1, user.id, inst2, gt2);
                        store@ == step.0 && step.2 is None
                    });
                assert(spec_post_next_instruction(
                    s_entry,
                    spec_header(auth_header),
                    now,
                    store@,
                    NextInstructionOutcome::AlreadyPassed,
                ));
            }
            NextInstructionOutcome::AlreadyPassed
        },
        Some(game) => {
            let resp = InstructionResponse {
                id: game.instruction,
                token: crate::tokens::format_token(game.token),
                correct_in_a_row: user1.license_game_stage,
            };
            proof {
                let step = spec_next_instruction(s1, user.id, inst, game_token);
                assert(store@ == step.0 && (step.2 matches Some(g) && resp.id == g.instruction
                    && resp.token@ == spec_token_text(g.token) && resp.correct_in_a_row
                    == step.1.license_game_stage));
                assert(exists|inst2: u16, gt2: u128|
                    {
                        let step2 = #[trigger] spec_next_instruction(s1, user.id, inst2, gt2);
                        &&& store@ == step2.0
                        &&& step2.2 matches Some(g)
                        &&& resp.id == g.instruction
                        &&& resp.token@ == spec_token_text(g.token)
                        &&& resp.correct_in_a_row == step2.1.license_game_stage
                    });
            }
            let result = NextInstructionOutcome::Issued(resp);
            proof {
                assert(spec_post_next_instruction(
                    s_entry,
                    spec_header(auth_header),
                    now,
                    store@,
                    result,
                ));
            }
            result
        },
    }
}

/// How an acknowledgement request ends.
pub enum AckOutcome {
    /// The flag was recorded.
    Acked,
    /// No live challenge of the caller carries the presented token.
    ChallengeNotFound,
    /// The challenge token in the body does not parse.
    BadToken,
    Denied(AuthError),
}

impl AckOutcome {
    pub open spec fn spec_status(&self) -> u16 {
        match self {
            AckOutcome::Acked => 200,
            AckOutcome::ChallengeNotFound => 404,
            AckOutcome::BadToken => 400,
            AckOutcome::Denied(e) => e.spec_status(),
        }
    }

    pub fn status(&self) -> (s: u16)
        ensures
            s == self.spec_status(),
    {
        match self {
            AckOutcome::Acked => 200,
            AckOutcome::ChallengeNotFound => 404,
            AckOutcome::BadToken => 400,
            AckOutcome::Denied(e) => e.status(),
        }
    }
}

/// One acknowledgement request, start to finish: resolve the caller, parse
/// the challenge token out of the body, and set the channel's flag on the
/// matching live challenge.
pub open spec fn spec_post_ack(
    s: StoreView,
    header: Option<Seq<char>>,
    body_token: Seq<char>,
    channel: AckChannel,
    now: i64,
) -> (StoreView, AckOutcome) {
    let (s1, res) = spec_resolve(s, header, now);
    match res {
        Err(e) => (s1, AckOutcome::Denied(e)),
        Ok((u, _)) => match spec_parse_token(body_token) {
            None => (s1, AckOutcome::BadToken),
            Some(t) => if has_game(s1.games, u.id) && spec_game(s1.games, u.id).token == t {
                (
                    (StoreView {
                        games: s1.games.update(
                            game_ix(s1.games, u.id),
                            spec_ack_game(spec_game(s1.games, u.id), channel),
                        ),
                        ..s1
                    }),
                    AckOutcome::Acked,
                )
            } else {
                (s1, AckOutcome::ChallengeNotFound)
            },
        },
    }
}

/// Shared body of the three acknowledgement endpoints.
fn post_ack(
    store: &mut Store,
    auth_header: Option<&String>,
    challenge_token: &String,
    channel: AckChannel,
    now: i64,
) -> (r: AckOutcome)
    requires
        old(store).wf(),
    ensures
        final(store).wf(),
        (final(store)@, r) == spec_post_ack(
            old(store)@,
            spec_header(auth_header),
            challenge_token@,
            channel,
            now,
        ),
{
    let user = match get_user_by_auth_header(store, auth_header, now) {
        Ok((u, _session)) => u,
        Err(e) => {
            return AckOutcome::Denied(e);
        },
    };
    let token = match parse_token(challenge_token.as_str()) {
        Some(t) => t,
        None => {
            return AckOutcome::BadToken;
        },
    };
    let acked = match channel {
        AckChannel::Fizz => update_fizz(store, user.id, token),
        AckChannel::Buzz => update_buzz(store, user.id, token),
        AckChannel::Other => update_instructions(store, user.id, token),
    };
    match acked {
        Ok(()) => AckOutcome::Acked,
        Err(_) => AckOutcome::ChallengeNotFound,
    }
}

/// Record a `fizz` acknowledgement from the caller's request body.
pub fn post_fizz(
    store: &mut Store,
    auth_header: Option<&String>,
    challenge_token: &String,
    now: i64,
) -> (r: AckOutcome)
    requires
        old(store).wf(),
    ensures
        final(store).wf(),
        (final(store)@, r) == spec_post_ack(
            old(store)@,
            spec_header(auth_header),
            challenge_token@,
            AckChannel::Fizz,
            now,
        ),
{
    post_ack(store, auth_header, challenge_token, AckChannel::Fizz, now)
}

/// Record a `buzz` acknowledgement from the caller's request body.
pub fn post_buzz(
    store: &mut Store,
    auth_header: Option<&String>,
    challenge_token: &String,
    now: i64,
) -> (r: AckOutcome)
    requires
        old(store).wf(),
    ensures
        final(store).wf(),
        (final(store)@, r) == spec_post_ack(
            old(store)@,
            spec_header(auth_header),
            challenge_token@,
            AckChannel::Buzz,
            now,
        ),
{
    post_ack(store, auth_header, challenge_token, AckChannel::Buzz, now)
}

/// Record an `other` acknowledgement from the caller's request body.
pub fn post_instructions(
    store: &mut Store,
    auth_header: Option<&String>,
    challenge_token: &String,
    now: i64,
) -> (r: AckOutcome)
    requires
        old(store).wf(),
    ensures
        final(store).wf(),
        (final(store)@, r) == spec_post_ack(
            old(store)@,
            spec_header(auth_header),
            challenge_token@,
            AckChannel::Other,
            now,
        ),
{
    post_ack(store, auth_header, challenge_token, AckChannel::Other, now)
}

/// The exam routes this surface contributes.
pub struct GameRouter;

impl Routable for GameRouter {
    open spec fn spec_routes(&self) -> Seq<(Verb, Seq<char>, HandlerId)> {
        seq![
            (Verb::Post, "/next_instruction"@, HandlerId::NextInstruction),
            (Verb::Post, "/instructions"@, HandlerId::AckInstructions),
            (Verb::Post, "/fizz"@, HandlerId::AckFizz),
            (Verb::Post, "/buzz"@, HandlerId::AckBuzz),
        ]
    }

    fn routes(&self) -> (r: Vec<(Route, HandlerId)>) {
        let mut v: Vec<(Route, HandlerId)> = Vec::new();
        v.push(
            (Route(Verb::Post, String::from_str("/next_instruction")), HandlerId::NextInstruction),
        );
        v.push((Route(Verb::Post, String::from_str("/instructions")), HandlerId::AckInstructions));
        v.push((Route(Verb::Post, String::from_str("/fizz")), HandlerId::AckFizz));
        v.push((Route(Verb::Post, String::from_str("/buzz")), HandlerId::AckBuzz));
        v
    }
}

} // verus!
