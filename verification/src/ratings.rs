//! Call rating: billable durations.

use vstd::prelude::*;
use vstd::string::*;
use crate::text::{chars_of, matches_at, occurs_at};

verus! {

/// Rating engine for calculating call charges.
pub struct RatingEngine;

/// The seconds that are billed for a call: the actual duration, but no
/// less than the minimum, rounded up to a whole number of billing
/// increments; an increment of zero rounds nothing. A duration that would
/// pass the largest number of seconds is held at it.
pub open spec fn billable_seconds(actual: u32, minimum: u32, increment: u32) -> int {
    let duration: int = if actual >= minimum {
        actual as int
    } else {
        minimum as int
    };
    if increment > 0 {
        let rounded = ((duration + increment - 1) / (increment as int)) * increment;
        if rounded > u32::MAX {
            u32::MAX as int
        } else {
            rounded
        }
    } else {
        duration
    }
}

impl RatingEngine {
    /// Calculate billable duration considering minimum charge and billing
    /// increments.
    pub fn calculate_billable_duration(
        actual_seconds: u32,
        minimum_seconds: u32,
        increment_seconds: u32,
    ) -> (r: u32)
        ensures
            r == billable_seconds(actual_seconds, minimum_seconds, increment_seconds),
    {
        let duration: u32 = if actual_seconds >= minimum_seconds {
            actual_seconds
        } else {
            minimum_seconds
        };
        if increment_seconds > 0 {
            let increments: u64 = (duration as u64 + increment_seconds as u64 - 1)
                / increment_seconds as u64;
            assert(increments * increment_seconds <= duration + increment_seconds - 1)
                by (nonlinear_arith)
                requires
                    increments as int == (duration as int + increment_seconds as int - 1) / (
                    increment_seconds as int),
                    increment_seconds >= 1,
            ;
            let rounded: u64 = increments * increment_seconds as u64;
            if rounded > u32::MAX as u64 {
                u32::MAX
            } else {
                rounded as u32
            }
        } else {
            duration
        }
    }
}

/// When and for which numbers a rate card applies.
#[derive(Debug, Clone)]
pub struct RateWindow {
    /// The digits with which the numbers start
    pub prefix: String,
    pub active: bool,
    /// The time from which the card is in effect, in seconds since the Unix
    /// epoch
    pub effective_date: i64,
    /// The time up to which the card is in effect, if it ends
    pub end_date: Option<i64>,
}

/// Whether a card applies to a call to `destination` that starts at
/// `start_time`: it is active, in effect at that time, and its prefix, which
/// is not empty, starts the destination.
pub open spec fn applies(rate: RateWindow, destination: Seq<char>, start_time: i64) -> bool {
    &&& rate.active
    &&& rate.effective_date <= start_time
    &&& match rate.end_date {
        Some(end) => end >= start_time,
        None => true,
    }
    &&& rate.prefix@.len() > 0
    &&& occurs_at(destination, rate.prefix@, 0)
}

/// Whether `i` is the card of the longest prefix among the cards that
/// apply, and the first of those.
pub open spec fn is_best_rate(
    rates: Seq<RateWindow>,
    destination: Seq<char>,
    start_time: i64,
    i: int,
) -> bool {
    &&& 0 <= i < rates.len()
    &&& applies(rates[i], destination, start_time)
    &&& forall|j: int|
        0 <= j < rates.len() && applies(#[trigger] rates[j], destination, start_time)
            ==> rates[j].prefix@.len() <= rates[i].prefix@.len() && (j < i
            ==> rates[j].prefix@.len() < rates[i].prefix@.len())
}

impl RatingEngine {
    /// Find the best matching rate card for a call: the index of the card
    /// with the longest prefix among those that apply; none where none
    /// applies.
    pub fn find_matching_rate(destination: &str, start_time: i64, rates: &Vec<RateWindow>) -> (r:
        Option<usize>)
        ensures
            match r {
                Some(i) => is_best_rate(rates@, destination@, start_time, i as int),
                None => forall|j: int|
                    0 <= j < rates@.len() ==> !applies(#[trigger] rates@[j], destination@, start_time),
            },
    {
        let d = chars_of(destination);
        let mut best: Option<usize> = None;
        let mut best_len: usize = 0;
        let mut i: usize = 0;
        while i < rates.len()
            invariant
                i <= rates.len(),
                d@ == destination@,
                match best {
                    Some(b) => b < i && applies(rates@[b as int], destination@, start_time)
                        && best_len == rates@[b as int].prefix@.len() && forall|j: int|
                        0 <= j < i && applies(#[trigger] rates@[j], destination@, start_time)
                            ==> rates@[j].prefix@.len() <= best_len && (j < b
                            ==> rates@[j].prefix@.len() < best_len),
                    None => best_len == 0 && forall|j: int|
                        0 <= j < i ==> !applies(#[trigger] rates@[j], destination@, start_time),
                },
            decreases rates.len() - i,
        {
            let rate = &rates[i];
            let in_effect = rate.active && rate.effective_date <= start_time && match rate.end_date {
                Some(end) => end >= start_time,
                None => true,
            };
            if in_effect {
                let p = chars_of(rate.prefix.as_str());
                if matches_at(&d, &p, 0) && p.len() > best_len {
                    best = Some(i);
                    best_len = p.len();
                }
            }
            i += 1;
        }
        best
    }
}

} // verus!
