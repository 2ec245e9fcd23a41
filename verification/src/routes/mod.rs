use vstd::prelude::*;

use crate::router::{
    lemma_route_ix, routes_distinct, spec_route, HandlerId, Router, Verb,
};
use crate::routes::game::GameRouter;
use crate::routes::health::HealthRouter;
use crate::routes::users::UserRouter;

pub mod game;
pub mod health;
pub mod users;

verus! {

/// Build the service's route table once, at startup: the authentication,
/// exam and health surfaces contribute their routes, and everything else
/// falls back to not-found. The fixed table is duplicate-free, and every
/// registered pair is proved to look up its own handler.
pub fn build_router() -> (r: Router)
    ensures
        r.wf(),
        r.not_found_route == HandlerId::NotFound,
        r.routes@.len() == 8,
        spec_route(r.routes@, Verb::Post, "/register"@, HandlerId::NotFound)
            == HandlerId::RegisterUser,
        spec_route(r.routes@, Verb::Post, "/login"@, HandlerId::NotFound) == HandlerId::Login,
        spec_route(r.routes@, Verb::Get, "/user"@, HandlerId::NotFound) == HandlerId::GetUser,
        spec_route(r.routes@, Verb::Post, "/next_instruction"@, HandlerId::NotFound)
            == HandlerId::NextInstruction,
        spec_route(r.routes@, Verb::Post, "/instructions"@, HandlerId::NotFound)
            == HandlerId::AckInstructions,
        spec_route(r.routes@, Verb::Post, "/fizz"@, HandlerId::NotFound) == HandlerId::AckFizz,
        spec_route(r.routes@, Verb::Post, "/buzz"@, HandlerId::NotFound) == HandlerId::AckBuzz,
        spec_route(r.routes@, Verb::Get, "/health"@, HandlerId::NotFound) == HandlerId::Health,
        r.routes@[0].0.0 == Verb::Post && r.routes@[0].0.1@ == "/register"@ && r.routes@[0].1
            == HandlerId::RegisterUser,
        r.routes@[1].0.0 == Verb::Post && r.routes@[1].0.1@ == "/login"@ && r.routes@[1].1
            == HandlerId::Login,
        r.routes@[2].0.0 == Verb::Get && r.routes@[2].0.1@ == "/user"@ && r.routes@[2].1
            == HandlerId::GetUser,
        r.routes@[3].0.0 == Verb::Post && r.routes@[3].0.1@ == "/next_instruction"@ && r.routes@[
            3
        ].1 == HandlerId::NextInstruction,
        r.routes@[4].0.0 == Verb::Post && r.routes@[4].0.1@ == "/instructions"@ && r.routes@[4].1
            == HandlerId::AckInstructions,
        r.routes@[5].0.0 == Verb::Post && r.routes@[5].0.1@ == "/fizz"@ && r.routes@[5].1
            == HandlerId::AckFizz,
        r.routes@[6].0.0 == Verb::Post && r.routes@[6].0.1@ == "/buzz"@ && r.routes@[6].1
            == HandlerId::AckBuzz,
        r.routes@[7].0.0 == Verb::Get && r.routes@[7].0.1@ == "/health"@ && r.routes@[7].1
            == HandlerId::Health,
{
    let b0 = Router::builder();
    let b1 = b0.add_routes(&UserRouter);
    let b2 = b1.add_routes(&GameRouter);
    let builder = b2.add_routes(&HealthRouter);
    proof {
        reveal_strlit("/register");
        reveal_strlit("/login");
        reveal_strlit("/user");
        reveal_strlit("/next_instruction");
        reveal_strlit("/instructions");
        reveal_strlit("/fizz");
        reveal_strlit("/buzz");
        reveal_strlit("/health");
        let t = builder.routes@;
        assert(t.len() == 8);
        assert(t[0].0.0 == Verb::Post && t[0].0.1@ == "/register"@ && t[0].1
            == HandlerId::RegisterUser);
        assert(t[1].0.0 == Verb::Post && t[1].0.1@ == "/login"@ && t[1].1 == HandlerId::Login);
        assert(t[2].0.0 == Verb::Get && t[2].0.1@ == "/user"@ && t[2].1 == HandlerId::GetUser);
        assert(t[3].0.0 == Verb::Post && t[3].0.1@ == "/next_instruction"@ && t[3].1
            == HandlerId::NextInstruction);
        assert(t[4].0.0 == Verb::Post && t[4].0.1@ == "/instructions"@ && t[4].1
            == HandlerId::AckInstructions);
        assert(t[5].0.0 == Verb::Post && t[5].0.1@ == "/fizz"@ && t[5].1 == HandlerId::AckFizz);
        assert(t[6].0.0 == Verb::Post && t[6].0.1@ == "/buzz"@ && t[6].1 == HandlerId::AckBuzz);
        assert(t[7].0.0 == Verb::Get && t[7].0.1@ == "/health"@ && t[7].1 == HandlerId::Health);
        assert("/register"@.len() == 9 && "/login"@.len() == 6 && "/user"@.len() == 5
            && "/next_instruction"@.len() == 17 && "/instructions"@.len() == 13 && "/fizz"@.len()
            == 5 && "/buzz"@.len() == 5 && "/health"@.len() == 7);
        assert("/user"@[1] == 'u' && "/fizz"@[1] == 'f' && "/buzz"@[1] == 'b');
        assert forall|i: int, j: int| 0 <= i < j < t.len() implies !((#[trigger] t[i]).0.0
            == (#[trigger] t[j]).0.0 && t[i].0.1@ == t[j].0.1@) by {
            assert("/user"@[1] == 'u' && "/fizz"@[1] == 'f' && "/buzz"@[1] == 'b');
        }
        assert(routes_distinct(t));
    }
    let router = builder.not_found_route(HandlerId::NotFound);
    proof {
        lemma_route_ix(router.routes@, Verb::Post, "/register"@, 0);
        lemma_route_ix(router.routes@, Verb::Post, "/login"@, 1);
        lemma_route_ix(router.routes@, Verb::Get, "/user"@, 2);
        lemma_route_ix(router.routes@, Verb::Post, "/next_instruction"@, 3);
        lemma_route_ix(router.routes@, Verb::Post, "/instructions"@, 4);
        lemma_route_ix(router.routes@, Verb::Post, "/fizz"@, 5);
        lemma_route_ix(router.routes@, Verb::Post, "/buzz"@, 6);
        lemma_route_ix(router.routes@, Verb::Get, "/health"@, 7);
    }
    router
}

} // verus!
