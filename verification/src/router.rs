use vstd::prelude::*;

verus! {

/// The request verbs the service routes on.
#[derive(Clone, Copy, Debug, PartialEq, Eq, Structural)]
pub enum Verb {
    Get,
    Post,
}

/// Identity of a handler in the route table. The transport layer turns an
/// identity back into the call it stands for; lookup itself is pure.
#[derive(Clone, Copy, Debug, PartialEq, Eq, Structural)]
pub enum HandlerId {
    RegisterUser,
    Login,
    GetUser,
    NextInstruction,
    AckInstructions,
    AckFizz,
    AckBuzz,
    Health,
    NotFound,
}

/// An exact (verb, path) pair; no prefix or parameter matching.
pub struct Route(pub Verb, pub String);

impl Clone for Route {
    fn clone(&self) -> (r: Self)
        ensures
            r == *self,
    {
        Route(self.0, self.1.clone())
    }
}

/// Whether the table holds an entry for the exact pair.
pub open spec fn has_route(table: Seq<(Route, HandlerId)>, verb: Verb, path: Seq<char>) -> bool {
    exists|i: int| 0 <= i < table.len() && table[i].0.0 == verb && table[i].0.1@ == path
}

/// Index of the entry for the pair (unique in a well-built table).
pub open spec fn route_ix(table: Seq<(Route, HandlerId)>, verb: Verb, path: Seq<char>) -> int {
    choose|i: int| 0 <= i < table.len() && table[i].0.0 == verb && table[i].0.1@ == path
}

/// What a lookup returns: the registered handler on an exact match, the
/// fallback otherwise. Lookup failure is not an error but the defined
/// fallback path.
pub open spec fn spec_route(
    table: Seq<(Route, HandlerId)>,
    verb: Verb,
    path: Seq<char>,
    fallback: HandlerId,
) -> HandlerId {
    if has_route(table, verb, path) {
        table[route_ix(table, verb, path)].1
    } else {
        fallback
    }
}

/// No two entries cover the same (verb, path) pair: a duplicate
/// registration is a configuration error caught at build time.
pub open spec fn routes_distinct(table: Seq<(Route, HandlerId)>) -> bool {
    forall|i: int, j: int|
        0 <= i < j < table.len() ==> !((#[trigger] table[i]).0.0 == (#[trigger] table[j]).0.0
            && table[i].0.1@ == table[j].0.1@)
}

/// If an index matches the pair, it is the entry a lookup lands on.
pub proof fn lemma_route_ix(
    table: Seq<(Route, HandlerId)>,
    verb: Verb,
    path: Seq<char>,
    i: int,
)
    requires
        routes_distinct(table),
        0 <= i < table.len(),
        table[i].0.0 == verb,
        table[i].0.1@ == path,
    ensures
        has_route(table, verb, path),
        route_ix(table, verb, path) == i,
        spec_route(table, verb, path, HandlerId::NotFound) == table[i].1,
        forall|fallback: HandlerId| #[trigger] spec_route(table, verb, path, fallback)
            == table[i].1,
{
    assert(has_route(table, verb, path));
    let j = route_ix(table, verb, path);
    if i < j {
        assert(!(table[i].0.0 == table[j].0.0 && table[i].0.1@ == table[j].0.1@));
    } else if j < i {
        assert(!(table[j].0.0 == table[i].0.0 && table[j].0.1@ == table[i].0.1@));
    }
}

/// A contributor of routes: one method returning the contributor's route
/// list, pinned to the list its specification names.
pub trait Routable {
    /// The (verb, path text, handler) triples this contributor registers.
    spec fn spec_routes(&self) -> Seq<(Verb, Seq<char>, HandlerId)>;

    fn routes(&self) -> (r: Vec<(Route, HandlerId)>)
        ensures
            r@.len() == self.spec_routes().len(),
            forall|i: int|
                0 <= i < r@.len() ==> (#[trigger] r@[i]).0.0 == self.spec_routes()[i].0
                    && r@[i].0.1@ == self.spec_routes()[i].1 && r@[i].1 == self.spec_routes()[i].2,
    ;
}

/// Accumulates route lists during the single-threaded build phase.
pub struct RouteBuilder {
    pub routes: Vec<(Route, HandlerId)>,
}

impl RouteBuilder {
    pub fn new() -> (r: Self)
        ensures
            r.routes@.len() == 0,
    {
        RouteBuilder { routes: Vec::new() }
    }

    /// Append one contributor's routes.
    pub fn add_routes<R: Routable>(self, routable: &R) -> (r: RouteBuilder)
        ensures
            r.routes@.len() == self.routes@.len() + routable.spec_routes().len(),
            forall|i: int| 0 <= i < self.routes@.len() ==> r.routes@[i] == self.routes@[i],
            forall|i: int|
                self.routes@.len() <= i < r.routes@.len() ==> {
                    let entry = routable.spec_routes()[i - self.routes@.len()];
                    (#[trigger] r.routes@[i]).0.0 == entry.0 && r.routes@[i].0.1@ == entry.1
                        && r.routes@[i].1 == entry.2
                },
    {
        let mut this = self;
        let mut contributed = routable.routes();
        this.routes.append(&mut contributed);
        this
    }

    /// Seal the table with the fallback handler. Duplicate registrations
    /// must have been ruled out by then (`has_duplicate_routes` checks).
    pub fn not_found_route(self, route: HandlerId) -> (r: Router)
        requires
            routes_distinct(self.routes@),
        ensures
            r.routes@ == self.routes@,
            r.not_found_route == route,
            r.wf(),
    {
        Router { routes: self.routes, not_found_route: route }
    }

    /// Whether some (verb, path) pair was registered twice - the
    /// configuration error the build phase must fail fast on.
    pub fn has_duplicate_routes(&self) -> (dup: bool)
        ensures
            dup == !routes_distinct(self.routes@),
    {
        let n = self.routes.len();
        let mut i: usize = 0;
        while i < n
            invariant
                i <= n,
                n == self.routes@.len(),
                forall|p: int, q: int|
                    0 <= p < q < n && p < i ==> !((#[trigger] self.routes@[p]).0.0
                        == (#[trigger] self.routes@[q]).0.0 && self.routes@[p].0.1@
                        == self.routes@[q].0.1@),
            decreases n - i,
        {
            let mut j: usize = i + 1;
            while j < n
                invariant
                    i < j <= n,
                    n == self.routes@.len(),
                    forall|q: int|
                        i < q < j ==> !((#[trigger] self.routes@[q]).0.0 == self.routes@[
                            i as int
                        ].0.0 && self.routes@[q].0.1@ == self.routes@[i as int].0.1@),
                decreases n - j,
            {
                if self.routes[j].0.0 == self.routes[i].0.0 && self.routes[j].0.1
                    == self.routes[i].0.1 {
                    return true;
                }
                j += 1;
            }
            i += 1;
        }
        false
    }
}

/// The immutable dispatch table: exact (verb, path) lookup with a fallback.
/// Built once at startup, read-only afterwards.
pub struct Router {
    pub routes: Vec<(Route, HandlerId)>,
    pub not_found_route: HandlerId,
}

impl Router {
    /// A usable table has no duplicate registrations.
    pub open spec fn wf(&self) -> bool {
        routes_distinct(self.routes@)
    }

    pub fn builder() -> (r: RouteBuilder)
        ensures
            r.routes@.len() == 0,
    {
        RouteBuilder::new()
    }

    /// Look the pair up: the registered handler on an exact match, the
    /// fallback otherwise.
    pub fn route(&self, verb: Verb, path: &String) -> (h: HandlerId)
        requires
            self.wf(),
        ensures
            h == spec_route(self.routes@, verb, path@, self.not_found_route),
    {
        let mut i: usize = 0;
        while i < self.routes.len()
            invariant
                routes_distinct(self.routes@),
                i <= self.routes@.len(),
                forall|k: int|
                    0 <= k < i ==> !((#[trigger] self.routes@[k]).0.0 == verb && self.routes@[
                        k
                    ].0.1@ == path@),
            decreases self.routes@.len() - i,
        {
            if self.routes[i].0.0 == verb && self.routes[i].0.1 == *path {
                proof {
                    lemma_route_ix(self.routes@, verb, path@, i as int);
                }
                return self.routes[i].1;
            }
            i += 1;
        }
        self.not_found_route
    }
}

/// Registrations under different verbs on one path are independent: looking
/// up one verb lands on that verb's handler and never the other's.
pub proof fn lemma_verb_independence(
    table: Seq<(Route, HandlerId)>,
    fallback: HandlerId,
    path: Seq<char>,
    i: int,
    j: int,
)
    requires
        routes_distinct(table),
        0 <= i < table.len(),
        0 <= j < table.len(),
        table[i].0.0 == Verb::Get,
        table[j].0.0 == Verb::Post,
        table[i].0.1@ == path,
        table[j].0.1@ == path,
    ensures
        spec_route(table, Verb::Get, path, fallback) == table[i].1,
        spec_route(table, Verb::Post, path, fallback) == table[j].1,
{
    lemma_route_ix(table, Verb::Get, path, i);
    lemma_route_ix(table, Verb::Post, path, j);
}

/// An unregistered pair always lands on the fallback handler.
pub proof fn lemma_unregistered_falls_back(
    table: Seq<(Route, HandlerId)>,
    fallback: HandlerId,
    verb: Verb,
    path: Seq<char>,
)
    requires
        !has_route(table, verb, path),
    ensures
        spec_route(table, verb, path, fallback) == fallback,
{
}

} // verus!
