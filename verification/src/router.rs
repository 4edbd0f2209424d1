//! The router: it owns the routes, lets none start before all of them are
//! valid, says what is to be launched, and keeps the state of each route as
//! those who run them report what happened.

use crate::error::{ConfigurationError, ConfigurationErrorView};
use crate::route::Route;
use crate::source::{Source, SourceMode};
use vstd::prelude::*;

verus! {

/// Where a route stands between its declaration and its end.
#[derive(Clone, Copy, Debug, PartialEq, Eq, Structural)]
pub enum RouteState {
    /// Declared, not yet checked.
    Configured,
    /// Checked: the route has a destination and may be started.
    Validated,
    /// The source was started; items are taken as they come.
    Running,
    /// The source came to its end, or a watch was shut down.
    Completed,
    /// The source could not be started or broke down.
    Failed,
    /// Shut down before it had run to its end.
    Cancelled,
}

/// What is reported of a route while it runs.
#[derive(Clone, Copy, Debug, PartialEq, Eq, Structural)]
pub enum RouteEvent {
    /// The source was started: the subscription stands, or the walk began.
    Started,
    /// One item went through the chain and was written.
    ItemProcessed,
    /// One item could not be read, transformed or written.
    ItemFailed,
    /// The source yields no more: the walk is done, or the notifications
    /// have ended.
    SourceEnded,
    /// The root is out of reach or the subscription failed.
    SourceFailed,
    /// The router is shutting down.
    Shutdown,
}

/// The state of a route after an event. A route runs only once it is
/// validated, an item's fate never ends a route, and an ended route stays
/// as it ended.
pub open spec fn next_state(state: RouteState, mode: SourceMode, event: RouteEvent) -> RouteState {
    match (state, event) {
        (RouteState::Validated, RouteEvent::Started) => RouteState::Running,
        (RouteState::Validated, RouteEvent::SourceFailed) => RouteState::Failed,
        (RouteState::Validated, RouteEvent::Shutdown) => RouteState::Cancelled,
        (RouteState::Running, RouteEvent::SourceEnded) => RouteState::Completed,
        (RouteState::Running, RouteEvent::SourceFailed) => RouteState::Failed,
        (RouteState::Running, RouteEvent::Shutdown) => if mode == SourceMode::Watch {
            RouteState::Completed
        } else {
            RouteState::Cancelled
        },
        _ => state,
    }
}

/// Whether a route has come to an end.
pub open spec fn is_terminal(state: RouteState) -> bool {
    state == RouteState::Completed || state == RouteState::Failed || state
        == RouteState::Cancelled
}

/// The state of a route after a run of events, the first one first.
pub open spec fn after(state: RouteState, mode: SourceMode, events: Seq<RouteEvent>) -> RouteState
    decreases events.len(),
{
    if events.len() == 0 {
        state
    } else {
        next_state(after(state, mode, events.drop_last()), mode, events.last())
    }
}

/// The states of all routes after an event on the route at `route`: that
/// route takes its step, every other route stays as it is. An index that
/// names no route changes nothing.
pub open spec fn stepped(
    states: Seq<RouteState>,
    routes: Seq<Route>,
    route: int,
    event: RouteEvent,
) -> Seq<RouteState> {
    if 0 <= route < states.len() {
        states.update(route, next_state(states[route], routes[route].mode_view(), event))
    } else {
        states
    }
}

/// The states of all routes once each has been validated that was only
/// configured.
pub open spec fn validated(states: Seq<RouteState>) -> Seq<RouteState> {
    Seq::new(
        states.len(),
        |i: int|
            if states[i] == RouteState::Configured {
                RouteState::Validated
            } else {
                states[i]
            },
    )
}

/// The states of all routes after each was told to shut down.
pub open spec fn shut_down(states: Seq<RouteState>, routes: Seq<Route>) -> Seq<RouteState> {
    Seq::new(
        states.len(),
        |i: int| next_state(states[i], routes[i].mode_view(), RouteEvent::Shutdown),
    )
}

/// Whether every route has a destination.
pub open spec fn all_routed(routes: Seq<Route>) -> bool {
    forall|i: int| 0 <= i < routes.len() ==> (#[trigger] routes[i]).destination_view() is Some
}

/// The place of the first route without a destination, or the number of
/// routes where each has one.
pub open spec fn first_unrouted(routes: Seq<Route>) -> int
    decreases routes.len(),
{
    if routes.len() == 0 {
        0
    } else {
        let before = first_unrouted(routes.drop_last());
        if before < routes.len() - 1 {
            before
        } else if routes.last().destination_view() is None {
            routes.len() - 1
        } else {
            routes.len() as int
        }
    }
}

/// One route to start: its place in the router's list, and its source.
#[derive(Debug)]
pub struct Launch {
    pub route: usize,
    pub source: Source,
}

/// Whether `launches` names every one of `routes`, in their order, each
/// with its source.
pub open spec fn launches_match(launches: Seq<Launch>, routes: Seq<Route>) -> bool {
    &&& launches.len() == routes.len()
    &&& forall|k: int|
        0 <= k < launches.len() ==> {
            &&& (#[trigger] launches[k]).route == k
            &&& launches[k].source@ == routes[k].source_spec()
        }
}

/// The source paths of `routes`, in their order.
pub open spec fn source_paths(routes: Seq<Route>) -> Seq<Seq<char>> {
    Seq::new(routes.len(), |i: int| routes[i].source_view().path)
}

/// `first_unrouted` is the place of the first route without a destination:
/// every route before it has one, and where it names a route, that route has
/// none. So it names no route exactly where every route has a destination.
pub proof fn lemma_first_unrouted(routes: Seq<Route>)
    ensures
        0 <= first_unrouted(routes) <= routes.len(),
        first_unrouted(routes) == routes.len() <==> all_routed(routes),
        forall|i: int|
            0 <= i < first_unrouted(routes) ==> (#[trigger] routes[i]).destination_view() is Some,
        first_unrouted(routes) < routes.len() ==> routes[first_unrouted(
            routes,
        )].destination_view() is None,
    decreases routes.len(),
{
    if routes.len() > 0 {
        let front = routes.drop_last();
        lemma_first_unrouted(front);
        assert forall|i: int| 0 <= i < first_unrouted(routes) implies (#[trigger] routes[
            i
        ]).destination_view() is Some by {
            if i < front.len() {
                assert(front[i] == routes[i]);
            }
        }
    }
}

/// Where the routes before `place` all have a destination, the first one
/// without is `place` if that route has none, and lies behind it otherwise.
proof fn lemma_first_unrouted_found(routes: Seq<Route>, place: int)
    requires
        0 <= place < routes.len(),
        first_unrouted(routes.take(place)) == place,
    ensures
        routes[place].destination_view() is None ==> first_unrouted(routes) == place,
        routes[place].destination_view() is Some ==> first_unrouted(routes.take(place + 1))
            == place + 1,
{
    let upto = routes.take(place + 1);
    assert(upto.drop_last() =~= routes.take(place));
    if routes[place].destination_view() is None {
        lemma_first_unrouted_stays(routes, place + 1);
    }
}

/// Once a route without a destination is found, longer lists have the same
/// first one.
proof fn lemma_first_unrouted_stays(routes: Seq<Route>, upto: int)
    requires
        0 <= upto <= routes.len(),
        first_unrouted(routes.take(upto)) < upto,
    ensures
        first_unrouted(routes) == first_unrouted(routes.take(upto)),
    decreases routes.len() - upto,
{
    if upto < routes.len() {
        assert(routes.take(upto + 1).drop_last() =~= routes.take(upto));
        lemma_first_unrouted_stays(routes, upto + 1);
    } else {
        assert(routes.take(upto) =~= routes);
    }
}

/// Whether every event of a run tells the fate of one item, and nothing else.
pub open spec fn only_items(events: Seq<RouteEvent>) -> bool {
    forall|i: int|
        0 <= i < events.len() ==> #[trigger] events[i] == RouteEvent::ItemProcessed || events[i]
            == RouteEvent::ItemFailed
}

/// An ended route stays as it ended, whatever is reported of it later.
pub proof fn lemma_terminal_is_final(state: RouteState, mode: SourceMode, events: Seq<RouteEvent>)
    requires
        is_terminal(state),
    ensures
        after(state, mode, events) == state,
    decreases events.len(),
{
    if events.len() > 0 {
        lemma_terminal_is_final(state, mode, events.drop_last());
    }
}

/// A route that was not validated never runs: no event takes it out of
/// `Configured`. Only validation does, and that asks for a destination.
pub proof fn lemma_unvalidated_never_runs(mode: SourceMode, events: Seq<RouteEvent>)
    ensures
        after(RouteState::Configured, mode, events) == RouteState::Configured,
    decreases events.len(),
{
    if events.len() > 0 {
        lemma_unvalidated_never_runs(mode, events.drop_last());
    }
}

/// The fate of its items never ends a route: after any number of items,
/// processed or failed and in any order, a running route is still running
/// and takes the next one.
pub proof fn lemma_items_never_stop_a_route(mode: SourceMode, events: Seq<RouteEvent>)
    requires
        only_items(events),
    ensures
        after(RouteState::Running, mode, events) == RouteState::Running,
    decreases events.len(),
{
    if events.len() > 0 {
        lemma_items_never_stop_a_route(mode, events.drop_last());
    }
}

/// Routes do not touch each other: an event on one route leaves every other
/// route's state as it is, and events on two different routes give the same
/// states in either order. So the failure of one route's source neither
/// stops nor holds up another route.
pub proof fn lemma_routes_are_independent(
    states: Seq<RouteState>,
    routes: Seq<Route>,
    one: int,
    event_one: RouteEvent,
    other: int,
    event_other: RouteEvent,
)
    requires
        one != other,
        0 <= other < states.len(),
    ensures
        stepped(states, routes, one, event_one)[other] == states[other],
        stepped(stepped(states, routes, one, event_one), routes, other, event_other) == stepped(
            stepped(states, routes, other, event_other),
            routes,
            one,
            event_one,
        ),
{
    let first = stepped(stepped(states, routes, one, event_one), routes, other, event_other);
    let second = stepped(stepped(states, routes, other, event_other), routes, one, event_one);
}

/// The texts of a list of strings.
pub open spec fn texts(strings: Seq<String>) -> Seq<Seq<char>> {
    Seq::new(strings.len(), |i: int| strings[i]@)
}

/// The transition of one route, computed.
pub fn step(state: RouteState, mode: SourceMode, event: RouteEvent) -> (next: RouteState)
    ensures
        next == next_state(state, mode, event),
{
    match (state, event) {
        (RouteState::Validated, RouteEvent::Started) => RouteState::Running,
        (RouteState::Validated, RouteEvent::SourceFailed) => RouteState::Failed,
        (RouteState::Validated, RouteEvent::Shutdown) => RouteState::Cancelled,
        (RouteState::Running, RouteEvent::SourceEnded) => RouteState::Completed,
        (RouteState::Running, RouteEvent::SourceFailed) => RouteState::Failed,
        (RouteState::Running, RouteEvent::Shutdown) => match mode {
            SourceMode::Watch => RouteState::Completed,
            SourceMode::Scan => RouteState::Cancelled,
        },
        _ => state,
    }
}

/// The router.
pub struct EIP {
    routes: Vec<Route>,
    file_paths: Vec<String>,
    states: Vec<RouteState>,
}

impl EIP {
    /// The routes, in the order in which they were given.
    pub closed spec fn routes_view(&self) -> Seq<Route> {
        self.routes@
    }

    /// The state of each route, in the same order.
    pub closed spec fn states(&self) -> Seq<RouteState> {
        self.states@
    }

    /// The source paths of the routes handed out for launching so far.
    pub closed spec fn watched(&self) -> Seq<Seq<char>> {
        texts(self.file_paths@)
    }

    #[verifier::type_invariant]
    spec fn well_formed(&self) -> bool {
        &&& self.states@.len() == self.routes@.len()
        &&& forall|i: int|
            0 <= i < self.states@.len() && #[trigger] self.states@[i] != RouteState::Configured
                ==> self.routes@[i].destination_view() is Some
    }

    /// A router without routes.
    pub fn new() -> (router: EIP)
        ensures
            router.routes_view() == Seq::<Route>::empty(),
            router.states() == Seq::<RouteState>::empty(),
            router.watched() == Seq::<Seq<char>>::empty(),
    {
        let router = EIP { routes: Vec::new(), file_paths: Vec::new(), states: Vec::new() };
        router
    }

    /// Gives the router its routes, in place of those it had. Each of them
    /// is configured and nothing more. The source paths that were noted
    /// stay as they are.
    pub fn routes(self, routes: Vec<Route>) -> (router: EIP)
        ensures
            router.routes_view() == routes@,
            router.states() == Seq::new(routes@.len(), |i: int| RouteState::Configured),
            router.watched() == self.watched(),
    {
        let mut states: Vec<RouteState> = Vec::new();
        let mut i: usize = 0;
        while i < routes.len()
            invariant
                i <= routes.len(),
                states@ == Seq::new(i as nat, |k: int| RouteState::Configured),
            decreases routes.len() - i,
        {
            states.push(RouteState::Configured);
            i = i + 1;
        }
        EIP { routes, file_paths: self.file_paths, states }
    }

    /// How many routes the router holds.
    pub fn len(&self) -> (n: usize)
        ensures
            n == self.routes_view().len(),
            n == self.states().len(),
    {
        proof {
            use_type_invariant(self);
        }
        self.routes.len()
    }

    /// The source paths of the routes handed out for launching so far.
    pub fn file_paths(&self) -> (paths: &Vec<String>)
        ensures
            texts(paths@) == self.watched(),
    {
        &self.file_paths
    }

    /// The route at `route`.
    pub fn route(&self, route: usize) -> (r: Option<&Route>)
        ensures
            match r {
                Some(found) => route < self.routes_view().len() && *found
                    == self.routes_view()[route as int],
                None => route >= self.routes_view().len(),
            },
    {
        if route < self.routes.len() {
            Some(&self.routes[route])
        } else {
            None
        }
    }

    /// The state of the route at `route`. A route that is past `Configured`
    /// has a destination.
    pub fn state_of(&self, route: usize) -> (r: Option<RouteState>)
        ensures
            match r {
                Some(state) => {
                    &&& route < self.states().len()
                    &&& state == self.states()[route as int]
                    &&& state != RouteState::Configured ==> self.routes_view()[route as int]
                        .destination_view() is Some
                },
                None => route >= self.states().len(),
            },
    {
        proof {
            use_type_invariant(self);
        }
        if route < self.states.len() {
            Some(self.states[route])
        } else {
            None
        }
    }

    /// Validates every route. Either all of them have a destination, and
    /// each configured route becomes validated; or the first one without a
    /// destination is reported, and no route changes its state.
    pub fn validate(&mut self) -> (r: Result<(), ConfigurationError>)
        ensures
            final(self).routes_view() == old(self).routes_view(),
            final(self).watched() == old(self).watched(),
            r is Ok <==> all_routed(old(self).routes_view()),
            match r {
                Ok(_) => final(self).states() == validated(old(self).states()),
                Err(e) => {
                    let first = first_unrouted(old(self).routes_view());
                    &&& 0 <= first < old(self).routes_view().len()
                    &&& e@ == (ConfigurationErrorView::MissingDestination {
                        source: old(self).routes_view()[first].source_view().text,
                    })
                    &&& final(self).states() == old(self).states()
                },
            },
    {
        proof {
            use_type_invariant(&*self);
            lemma_first_unrouted(self.routes@);
        }
        let mut i: usize = 0;
        while i < self.routes.len()
            invariant
                i <= self.routes@.len(),
                self.routes@ == old(self).routes@,
                self.states@ == old(self).states@,
                self.file_paths@ == old(self).file_paths@,
                first_unrouted(self.routes@.take(i as int)) == i,
            decreases self.routes@.len() - i,
        {
            proof {
                lemma_first_unrouted_found(self.routes@, i as int);
            }
            match self.routes[i].validate() {
                Ok(_) => {},
                Err(e) => {
                    return Err(e);
                },
            }
            i = i + 1;
        }
        proof {
            assert(self.routes@.take(i as int) =~= self.routes@);
        }
        let mut states: Vec<RouteState> = Vec::new();
        let mut k: usize = 0;
        while k < self.states.len()
            invariant
                k <= self.states@.len(),
                self.routes@ == old(self).routes@,
                self.states@ == old(self).states@,
                self.file_paths@ == old(self).file_paths@,
                states@ == validated(self.states@).take(k as int),
            decreases self.states@.len() - k,
        {
            let state = match self.states[k] {
                RouteState::Configured => RouteState::Validated,
                other => other,
            };
            states.push(state);
            k = k + 1;
        }
        self.states = states;
        Ok(())
    }

    /// Begins a run. Every route is validated first, and a route without a
    /// destination ends the run before anything is started. Otherwise every
    /// route is handed out, in order and with its source, and the source
    /// paths are noted behind those that were noted before.
    pub fn launch(&mut self) -> (r: Result<Vec<Launch>, ConfigurationError>)
        ensures
            final(self).routes_view() == old(self).routes_view(),
            r is Ok <==> all_routed(old(self).routes_view()),
            match r {
                Ok(launches) => {
                    &&& launches_match(launches@, old(self).routes_view())
                    &&& final(self).watched() == old(self).watched() + source_paths(
                        old(self).routes_view(),
                    )
                    &&& final(self).states() == validated(old(self).states())
                },
                Err(e) => {
                    let first = first_unrouted(old(self).routes_view());
                    &&& 0 <= first < old(self).routes_view().len()
                    &&& e@ == (ConfigurationErrorView::MissingDestination {
                        source: old(self).routes_view()[first].source_view().text,
                    })
                    &&& final(self).states() == old(self).states()
                    &&& final(self).watched() == old(self).watched()
                },
            },
    {
        match self.validate() {
            Ok(_) => {},
            Err(e) => {
                return Err(e);
            },
        }
        let ghost routes = self.routes@;
        let mut noted: Vec<String> = Vec::new();
        proof {
            use_type_invariant(&*self);
        }
        std::mem::swap(&mut self.file_paths, &mut noted);
        let mut launches: Vec<Launch> = Vec::new();
        let mut i: usize = 0;
        proof {
            assert(texts(noted@) =~= old(self).watched() + source_paths(routes).take(0));
        }
        while i < self.routes.len()
            invariant
                i <= routes.len(),
                self.routes@ == routes,
                self.states@ == validated(old(self).states@),
                launches_match(launches@, routes.take(i as int)),
                texts(noted@) == old(self).watched() + source_paths(routes).take(i as int),
            decreases routes.len() - i,
        {
            let ghost so_far = noted@;
            let path: String = self.routes[i].source_path().to_owned();
            noted.push(path);
            launches.push(Launch { route: i, source: self.routes[i].source() });
            proof {
                assert(texts(noted@) =~= texts(so_far).push(path@));
                assert(source_paths(routes).take(i + 1) =~= source_paths(routes).take(
                    i as int,
                ).push(path@));
            }
            i = i + 1;
        }
        proof {
            assert(routes.take(i as int) =~= routes);
            assert(source_paths(routes).take(i as int) =~= source_paths(routes));
            use_type_invariant(&*self);
        }
        self.file_paths = noted;
        Ok(launches)
    }

    /// Records what happened on the route at `route`, and returns the state
    /// that the route is in now. No other route is touched. An index that
    /// names no route changes nothing.
    pub fn advance(&mut self, route: usize, event: RouteEvent) -> (r: Option<RouteState>)
        ensures
            final(self).routes_view() == old(self).routes_view(),
            final(self).watched() == old(self).watched(),
            final(self).states() == stepped(
                old(self).states(),
                old(self).routes_view(),
                route as int,
                event,
            ),
            match r {
                Some(state) => {
                    &&& route < old(self).states().len()
                    &&& state == final(self).states()[route as int]
                },
                None => route >= old(self).states().len(),
            },
    {
        proof {
            use_type_invariant(&*self);
        }
        if route < self.states.len() {
            let next = step(self.states[route], self.routes[route].mode(), event);
            let mut states: Vec<RouteState> = Vec::new();
            let mut k: usize = 0;
            while k < self.states.len()
                invariant
                    k <= self.states@.len(),
                    route < self.states@.len(),
                    self.routes@ == old(self).routes@,
                    self.states@ == old(self).states@,
                    self.file_paths@ == old(self).file_paths@,
                    states@ == self.states@.update(route as int, next).take(k as int),
                decreases self.states@.len() - k,
            {
                states.push(if k == route { next } else { self.states[k] });
                k = k + 1;
            }
            self.states = states;
            Some(next)
        } else {
            None
        }
    }

    /// Tells every route to shut down: a route that has not come to its end
    /// does so now, and an ended route stays as it ended.
    pub fn shutdown(&mut self)
        ensures
            final(self).routes_view() == old(self).routes_view(),
            final(self).watched() == old(self).watched(),
            final(self).states() == shut_down(old(self).states(), old(self).routes_view()),
    {
        proof {
            use_type_invariant(&*self);
        }
        let mut states: Vec<RouteState> = Vec::new();
        let mut k: usize = 0;
        while k < self.states.len()
            invariant
                k <= self.states@.len(),
                self.states@.len() == self.routes@.len(),
                self.routes@ == old(self).routes@,
                self.states@ == old(self).states@,
                self.file_paths@ == old(self).file_paths@,
                states@ == shut_down(self.states@, self.routes@).take(k as int),
            decreases self.states@.len() - k,
        {
            states.push(step(self.states[k], self.routes[k].mode(), RouteEvent::Shutdown));
            k = k + 1;
        }
        self.states = states;
    }

    /// Checks that `route` has a destination.
    pub fn verify_route_destination(&self, route: &Route) -> (r: Result<(), ConfigurationError>)
        ensures
            r is Ok <==> route.destination_view() is Some,
            r matches Err(e) ==> e@ == (ConfigurationErrorView::MissingDestination {
                source: route.source_view().text,
            }),
    {
        route.validate()
    }
}

} // verus!
