//! Routing engine for call processing: prioritized rules with conditions
//! on time of day, day of week, date, caller and destination.

pub mod evaluator;
pub mod matcher;

pub use evaluator::{CallContext, RouteEvaluator, RouteMatch};
pub use matcher::{ConditionMatcher, Moment, SystemTimeProvider, TimeProvider};

use vstd::prelude::*;
use vstd::string::*;
use crate::order::{sort_stable, stable_sort, Keyed};

verus! {

/// Destination type for a route.
#[derive(Debug, Clone, PartialEq)]
pub enum RouteDestination {
    Extension(String),
    Trunk(String),
    RingGroup(String),
    Voicemail(String),
    Hangup,
    Custom(String),
}

impl RouteDestination {
    /// A copy of this destination.
    pub fn duplicate(&self) -> (r: Self)
        ensures
            r == *self,
    {
        match self {
            RouteDestination::Extension(s) => RouteDestination::Extension(s.clone()),
            RouteDestination::Trunk(s) => RouteDestination::Trunk(s.clone()),
            RouteDestination::RingGroup(s) => RouteDestination::RingGroup(s.clone()),
            RouteDestination::Voicemail(s) => RouteDestination::Voicemail(s.clone()),
            RouteDestination::Hangup => RouteDestination::Hangup,
            RouteDestination::Custom(s) => RouteDestination::Custom(s.clone()),
        }
    }

    /// The resolution target that the destination carries; none for a
    /// hang-up.
    pub fn target(&self) -> (r: Option<&str>)
        ensures
            match *self {
                RouteDestination::Extension(s) => r.is_some() && r.unwrap()@ == s@,
                RouteDestination::Trunk(s) => r.is_some() && r.unwrap()@ == s@,
                RouteDestination::RingGroup(s) => r.is_some() && r.unwrap()@ == s@,
                RouteDestination::Voicemail(s) => r.is_some() && r.unwrap()@ == s@,
                RouteDestination::Hangup => r.is_none(),
                RouteDestination::Custom(s) => r.is_some() && r.unwrap()@ == s@,
            },
    {
        match self {
            RouteDestination::Extension(s) => Some(s.as_str()),
            RouteDestination::Trunk(s) => Some(s.as_str()),
            RouteDestination::RingGroup(s) => Some(s.as_str()),
            RouteDestination::Voicemail(s) => Some(s.as_str()),
            RouteDestination::Hangup => None,
            RouteDestination::Custom(s) => Some(s.as_str()),
        }
    }
}

/// Action to perform when route matches.
#[derive(Debug, Clone, Copy, PartialEq, Eq, Structural)]
pub enum RouteAction {
    Accept,
    Reject,
    Continue,
}

#[derive(Debug, Clone)]
pub struct TimeCondition {
    pub start_time: String,
    pub end_time: String,
}

#[derive(Debug, Clone)]
pub struct DayOfWeekCondition {
    pub days: Vec<u8>,
}

#[derive(Debug, Clone)]
pub struct DateRangeCondition {
    pub start_date: String,
    pub end_date: String,
}

#[derive(Debug, Clone)]
pub struct CallerIdCondition {
    pub pattern: String,
    pub negate: bool,
}

#[derive(Debug, Clone)]
pub struct DestinationCondition {
    pub pattern: String,
    pub negate: bool,
}

/// Routing conditions.
#[derive(Debug, Clone)]
pub enum RouteCondition {
    Time(TimeCondition),
    DayOfWeek(DayOfWeekCondition),
    DateRange(DateRangeCondition),
    CallerId(CallerIdCondition),
    Destination(DestinationCondition),
}

/// A single routing rule.
#[derive(Debug, Clone)]
pub struct RouteRule {
    pub id: String,
    pub name: String,
    pub description: Option<String>,
    pub pattern: String,
    pub destination: RouteDestination,
    pub enabled: bool,
    pub priority: u32,
    pub conditions: Option<Vec<RouteCondition>>,
    pub action: RouteAction,
    pub continue_on_match: bool,
}

impl Keyed for RouteRule {
    open spec fn key(&self) -> u64 {
        self.priority as u64
    }

    fn key_of(&self) -> (k: u64) {
        self.priority as u64
    }
}

/// Routing configuration container.
#[derive(Debug, Clone)]
pub struct RoutingConfig {
    /// List of routes to evaluate
    pub routes: Vec<RouteRule>,
}

/// The enabled routes of `s`, in their order.
pub open spec fn enabled_of(s: Seq<RouteRule>) -> Seq<RouteRule>
    decreases s.len(),
{
    if s.len() == 0 {
        Seq::empty()
    } else if s.last().enabled {
        enabled_of(s.drop_last()).push(s.last())
    } else {
        enabled_of(s.drop_last())
    }
}

pub open spec fn derefs(r: Seq<&RouteRule>) -> Seq<RouteRule> {
    Seq::new(r.len(), |i: int| *r[i])
}

impl RoutingConfig {
    /// Create a new empty routing configuration.
    pub fn new() -> (r: Self)
        ensures
            r.routes@.len() == 0,
    {
        RoutingConfig { routes: Vec::new() }
    }

    /// Add a route to the configuration and put the routes in ascending
    /// priority (lower number = higher priority); routes of equal priority
    /// keep their order.
    pub fn add_route(&mut self, route: RouteRule)
        ensures
            final(self).routes@ == stable_sort(old(self).routes@.push(route)),
    {
        self.routes.push(route);
        sort_stable(&mut self.routes);
    }

    /// Get all enabled routes.
    pub fn enabled_routes(&self) -> (r: Vec<&RouteRule>)
        ensures
            derefs(r@) == enabled_of(self.routes@),
    {
        let mut out: Vec<&RouteRule> = Vec::new();
        let mut i: usize = 0;
        assert(self.routes@.take(0) =~= Seq::empty());
        assert(derefs(out@) =~= Seq::empty());
        while i < self.routes.len()
            invariant
                i <= self.routes.len(),
                derefs(out@) == enabled_of(self.routes@.take(i as int)),
            decreases self.routes.len() - i,
        {
            proof {
                assert(self.routes@.take(i + 1).drop_last() =~= self.routes@.take(i as int));
                assert(self.routes@.take(i + 1).last() == self.routes@[i as int]);
            }
            if self.routes[i].enabled {
                let ghost before = derefs(out@);
                out.push(&self.routes[i]);
                assert(derefs(out@) =~= before.push(self.routes@[i as int]));
            }
            i += 1;
        }
        assert(self.routes@.take(self.routes.len() as int) =~= self.routes@);
        out
    }
}

impl Default for RoutingConfig {
    fn default() -> (r: Self)
        ensures
            r.routes@.len() == 0,
    {
        RoutingConfig::new()
    }
}

} // verus!
