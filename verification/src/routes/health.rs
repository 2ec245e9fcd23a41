use vstd::prelude::*;
use vstd::string::StringExecFns;

use crate::router::{HandlerId, Routable, Route, Verb};

verus! {

/// The liveness route this surface contributes.
pub struct HealthRouter;

impl Routable for HealthRouter {
    open spec fn spec_routes(&self) -> Seq<(Verb, Seq<char>, HandlerId)> {
        seq![(Verb::Get, "/health"@, HandlerId::Health)]
    }

    fn routes(&self) -> (r: Vec<(Route, HandlerId)>) {
        let mut v: Vec<(Route, HandlerId)> = Vec::new();
        v.push((Route(Verb::Get, String::from_str("/health")), HandlerId::Health));
        v
    }
}

/// The liveness probe always answers OK.
pub fn post_next_instruction() -> (status: u16)
    ensures
        status == 200,
{
    200
}

} // verus!
