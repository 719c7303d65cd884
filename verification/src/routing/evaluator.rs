//! Route evaluation: the first enabled rule that matches decides.

use vstd::prelude::*;
use vstd::string::*;
use crate::routing::matcher::{
    all_match, conditions_hold, match_of, matches_pattern, ConditionMatcher, Moment,
    SystemTimeProvider, TimeProvider,
};
use crate::routing::{RouteAction, RouteDestination, RouteRule, RoutingConfig};

verus! {

/// Context for a call being routed.
#[derive(Debug, Clone)]
pub struct CallContext {
    pub caller_id: String,
    pub destination: String,
}

/// What a call context holds.
pub struct ContextView {
    pub caller_id: Seq<char>,
    pub destination: Seq<char>,
}

impl View for CallContext {
    type V = ContextView;

    open spec fn view(&self) -> ContextView {
        ContextView { caller_id: self.caller_id@, destination: self.destination@ }
    }
}

/// Result of matching a route.
#[derive(Debug, Clone)]
pub struct RouteMatch {
    pub route_id: String,
    pub route_name: String,
    pub destination: RouteDestination,
    pub action: RouteAction,
}

/// Whether a route matches the call: its pattern matches the destination,
/// and every condition it has holds.
pub open spec fn route_matches(route: RouteRule, context: ContextView, now: Moment) -> bool {
    match_of(route.pattern@, context.destination) == Some(true) && (match route.conditions {
        Some(c) => conditions_hold(c@, context.caller_id, context.destination, now),
        None => true,
    })
}

/// Whether a matching route ends the evaluation: every route does, but one
/// that continues on match with the action `Continue`.
pub open spec fn decides(route: RouteRule) -> bool {
    !route.continue_on_match || route.action != RouteAction::Continue
}

/// The index at or after `from` of the first enabled route that matches
/// and decides, or the number of routes.
pub open spec fn deciding_route(
    routes: Seq<RouteRule>,
    context: ContextView,
    now: Moment,
    from: int,
) -> int
    decreases routes.len() - from,
{
    if 0 <= from < routes.len() && !(routes[from].enabled && route_matches(
        routes[from],
        context,
        now,
    ) && decides(routes[from])) {
        deciding_route(routes, context, now, from + 1)
    } else {
        from
    }
}

/// The match that a route gives.
pub open spec fn match_for(route: RouteRule, m: RouteMatch) -> bool {
    &&& m.route_id == route.id
    &&& m.route_name == route.name
    &&& m.destination == route.destination
    &&& m.action == route.action
}

/// Whether `r` is the outcome of evaluating `routes` for the call: the match
/// of the first enabled route that matches and decides, or no route.
pub open spec fn is_outcome(
    routes: Seq<RouteRule>,
    context: ContextView,
    now: Moment,
    r: Option<RouteMatch>,
) -> bool {
    let i = deciding_route(routes, context, now, 0);
    match r {
        Some(m) => 0 <= i < routes.len() && match_for(routes[i], m),
        None => i == routes.len(),
    }
}

/// What routing decides for a call: the destination and the action of the
/// first enabled route that matches and decides, if there is one.
pub open spec fn decision(routes: Seq<RouteRule>, context: ContextView, now: Moment) -> Option<
    (RouteDestination, RouteAction),
> {
    let i = deciding_route(routes, context, now, 0);
    if 0 <= i < routes.len() {
        Some((routes[i].destination, routes[i].action))
    } else {
        None
    }
}

/// The destination and the action of a match.
pub open spec fn decision_of(r: Option<RouteMatch>) -> Option<(RouteDestination, RouteAction)> {
    match r {
        Some(m) => Some((m.destination, m.action)),
        None => None,
    }
}

pub proof fn lemma_deciding_route_is(
    routes: Seq<RouteRule>,
    context: ContextView,
    now: Moment,
    from: int,
    r: int,
)
    requires
        0 <= from <= r <= routes.len(),
        forall|j: int|
            from <= j < r ==> !((#[trigger] routes[j]).enabled && route_matches(
                routes[j],
                context,
                now,
            ) && decides(routes[j])),
        r < routes.len() ==> routes[r].enabled && route_matches(routes[r], context, now)
            && decides(routes[r]),
    ensures
        deciding_route(routes, context, now, from) == r,
    decreases r - from,
{
    if from < r {
        lemma_deciding_route_is(routes, context, now, from + 1, r);
    }
}

/// Every call has exactly one outcome: a match, where an enabled route
/// matches and decides, and no route otherwise.
pub proof fn lemma_outcome_total(routes: Seq<RouteRule>, context: ContextView, now: Moment)
    ensures
        ({
            let i = deciding_route(routes, context, now, 0);
            &&& 0 <= i <= routes.len()
            &&& forall|r: Option<RouteMatch>|
                is_outcome(routes, context, now, r) ==> (r is Some <==> i < routes.len())
            &&& forall|a: Option<RouteMatch>, b: Option<RouteMatch>|
                is_outcome(routes, context, now, a) && is_outcome(routes, context, now, b) ==> a
                    == b
        }),
{
    lemma_deciding_route_bounds(routes, context, now, 0);
}

pub proof fn lemma_deciding_route_bounds(
    routes: Seq<RouteRule>,
    context: ContextView,
    now: Moment,
    from: int,
)
    requires
        0 <= from <= routes.len(),
    ensures
        from <= deciding_route(routes, context, now, from) <= routes.len(),
    decreases routes.len() - from,
{
    if from < routes.len() && !(routes[from].enabled && route_matches(routes[from], context, now)
        && decides(routes[from])) {
        lemma_deciding_route_bounds(routes, context, now, from + 1);
    }
}

/// Check if a route matches the call context at `now`.
pub fn matches_route(route: &RouteRule, context: &CallContext, now: &Moment) -> (b: bool)
    ensures
        b == route_matches(*route, context@, *now),
{
    if !matches_pattern(route.pattern.as_str(), context.destination.as_str()) {
        return false;
    }
    match &route.conditions {
        Some(conditions) => all_match(
            conditions,
            context.caller_id.as_str(),
            context.destination.as_str(),
            now,
        ),
        None => true,
    }
}

/// Evaluate `routes` for a call at `now`.
pub fn evaluate_routes(routes: &Vec<RouteRule>, context: &CallContext, now: &Moment) -> (r: Option<
    RouteMatch,
>)
    ensures
        is_outcome(routes@, context@, *now, r),
        decision_of(r) == decision(routes@, context@, *now),
{
    let mut i: usize = 0;
    while i < routes.len()
        invariant
            i <= routes.len(),
            forall|j: int|
                0 <= j < i ==> !((#[trigger] routes@[j]).enabled && route_matches(
                    routes@[j],
                    context@,
                    *now,
                ) && decides(routes@[j])),
        decreases routes.len() - i,
    {
        let route = &routes[i];
        if route.enabled && matches_route(route, context, now) {
            let stop = !route.continue_on_match || match route.action {
                RouteAction::Accept => true,
                RouteAction::Reject => true,
                RouteAction::Continue => false,
            };
            if stop {
                proof {
                    lemma_deciding_route_is(routes@, context@, *now, 0, i as int);
                }
                return Some(
                    RouteMatch {
                        route_id: route.id.clone(),
                        route_name: route.name.clone(),
                        destination: route.destination.duplicate(),
                        action: route.action,
                    },
                );
            }
        }
        i += 1;
    }
    proof {
        lemma_deciding_route_is(routes@, context@, *now, 0, i as int);
    }
    None
}

/// Route evaluator for processing routing rules.
pub struct RouteEvaluator<P: TimeProvider> {
    config: RoutingConfig,
    matcher: ConditionMatcher<P>,
}

impl RouteEvaluator<SystemTimeProvider> {
    /// Create a new route evaluator with the given configuration.
    pub fn new(config: RoutingConfig) -> (r: Self)
        ensures
            r.rules() == config.routes@,
    {
        RouteEvaluator { config, matcher: ConditionMatcher::new() }
    }
}

impl<P: TimeProvider> RouteEvaluator<P> {
    /// The routes of the configuration.
    pub closed spec fn rules(&self) -> Seq<RouteRule> {
        self.config.routes@
    }

    /// Create a route evaluator with a custom condition matcher.
    pub fn with_matcher(config: RoutingConfig, matcher: ConditionMatcher<P>) -> (r: Self)
        ensures
            r.rules() == config.routes@,
    {
        RouteEvaluator { config, matcher }
    }

    /// Evaluate routes for a given call context, at the time of the
    /// matcher's provider.
    ///
    /// Returns the first matching route, or None if no routes match.
    pub fn evaluate(&self, context: &CallContext) -> (r: Option<RouteMatch>)
        ensures
            exists|now: Moment| is_outcome(self.rules(), context@, now, r),
    {
        let now = self.matcher.now();
        self.evaluate_at(context, &now)
    }

    /// Evaluate routes for a given call context at `now`.
    pub fn evaluate_at(&self, context: &CallContext, now: &Moment) -> (r: Option<RouteMatch>)
        ensures
            is_outcome(self.rules(), context@, *now, r),
            decision_of(r) == decision(self.rules(), context@, *now),
    {
        evaluate_routes(&self.config.routes, context, now)
    }

    /// Update the routing configuration.
    pub fn update_config(&mut self, config: RoutingConfig)
        ensures
            final(self).rules() == config.routes@,
    {
        self.config = config;
    }

    /// Get a reference to the current configuration.
    pub fn config(&self) -> (c: &RoutingConfig)
        ensures
            c.routes@ == self.rules(),
    {
        &self.config
    }
}

} // verus!
