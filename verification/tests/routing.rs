use chrono::Datelike;
use rustalk::routing::evaluator::{evaluate_routes, CallContext, RouteEvaluator};
use rustalk::routing::matcher::{
    all_match, match_caller_id, match_date_range, match_day_of_week, match_destination,
    match_time_condition, matches_pattern, parse_time, ConditionMatcher, Moment, TimeProvider,
};
use rustalk::routing::{
    CallerIdCondition, DateRangeCondition, DayOfWeekCondition, DestinationCondition, RouteAction,
    RouteCondition, RouteDestination, RouteRule, RoutingConfig, TimeCondition,
};

struct MockTimeProvider {
    fixed_time: Moment,
}

impl TimeProvider for MockTimeProvider {
    fn now(&self) -> Moment {
        self.fixed_time
    }
}

/// The moment of a UTC date and time, with the weekday that chrono gives.
fn moment(year: i32, month: u32, day: u32, hour: u32, minute: u32, second: u32) -> Moment {
    let date = chrono::NaiveDate::from_ymd_opt(year, month, day).unwrap();
    Moment {
        year,
        month,
        day,
        hour,
        minute,
        second,
        weekday: date.weekday().number_from_monday(),
    }
}

fn create_test_route(id: &str, priority: u32, pattern: &str) -> RouteRule {
    RouteRule {
        id: id.to_string(),
        name: format!("Route {}", id),
        description: None,
        pattern: pattern.to_string(),
        destination: RouteDestination::Extension("1000".to_string()),
        enabled: true,
        priority,
        conditions: None,
        action: RouteAction::Accept,
        continue_on_match: false,
    }
}

#[test]
fn test_routing_config_new() {
    let config = RoutingConfig::new();
    assert_eq!(config.routes.len(), 0);
}

#[test]
fn test_add_route_sorts_by_priority() {
    let mut config = RoutingConfig::new();

    let route1 = RouteRule {
        id: "1".to_string(),
        name: "Route 1".to_string(),
        description: None,
        pattern: ".*".to_string(),
        destination: RouteDestination::Hangup,
        enabled: true,
        priority: 10,
        conditions: None,
        action: RouteAction::Accept,
        continue_on_match: false,
    };

    let route2 = RouteRule {
        id: "2".to_string(),
        name: "Route 2".to_string(),
        description: None,
        pattern: ".*".to_string(),
        destination: RouteDestination::Hangup,
        enabled: true,
        priority: 5,
        conditions: None,
        action: RouteAction::Accept,
        continue_on_match: false,
    };

    config.add_route(route1);
    config.add_route(route2);

    assert_eq!(config.routes[0].priority, 5);
    assert_eq!(config.routes[1].priority, 10);
}

#[test]
fn test_simple_pattern_match() {
    let mut config = RoutingConfig::new();
    config.add_route(create_test_route("1", 10, r"^2\d{3}$")); // 2xxx extensions

    let evaluator = RouteEvaluator::new(config);

    let context = CallContext {
        caller_id: "+12125551234".to_string(),
        destination: "2345".to_string(),
    };

    let result = evaluator.evaluate(&context);
    assert!(result.is_some());
    assert_eq!(result.unwrap().route_id, "1");
}

#[test]
fn test_no_match() {
    let mut config = RoutingConfig::new();
    config.add_route(create_test_route("1", 10, r"^2\d{3}$"));

    let evaluator = RouteEvaluator::new(config);

    let context = CallContext {
        caller_id: "+12125551234".to_string(),
        destination: "5000".to_string(),
    };

    let result = evaluator.evaluate(&context);
    assert!(result.is_none());
}

#[test]
fn evaluator_test_priority_ordering() {
    let mut config = RoutingConfig::new();
    config.add_route(create_test_route("low", 20, r"^\d+$"));
    config.add_route(create_test_route("high", 5, r"^2\d{3}$"));

    let evaluator = RouteEvaluator::new(config);

    let context = CallContext {
        caller_id: "+12125551234".to_string(),
        destination: "2345".to_string(),
    };

    // Should match the high priority route first
    let result = evaluator.evaluate(&context);
    assert!(result.is_some());
    assert_eq!(result.unwrap().route_id, "high");
}

#[test]
fn test_route_with_time_condition() {
    let mut config = RoutingConfig::new();

    let mut route = create_test_route("1", 10, r"^\d+$");
    route.conditions = Some(vec![RouteCondition::Time(TimeCondition {
        start_time: "09:00".to_string(),
        end_time: "17:00".to_string(),
    })]);
    config.add_route(route);

    // Test at 10:30 AM on Monday
    let mock_time = moment(2024, 1, 15, 10, 30, 0);
    let provider = MockTimeProvider {
        fixed_time: mock_time,
    };
    let matcher = ConditionMatcher::with_time_provider(provider);

    let evaluator = RouteEvaluator::with_matcher(config, matcher);

    let context = CallContext {
        caller_id: "+12125551234".to_string(),
        destination: "2345".to_string(),
    };

    let result = evaluator.evaluate(&context);
    assert!(result.is_some());
}

#[test]
fn test_route_with_caller_id_condition() {
    let mut config = RoutingConfig::new();

    let mut route = create_test_route("1", 10, r"^\d+$");
    route.conditions = Some(vec![RouteCondition::CallerId(CallerIdCondition {
        pattern: r"^\+1".to_string(),
        negate: false,
    })]);
    config.add_route(route);

    let evaluator = RouteEvaluator::new(config);

    // Should match US number
    let context1 = CallContext {
        caller_id: "+12125551234".to_string(),
        destination: "2345".to_string(),
    };
    assert!(evaluator.evaluate(&context1).is_some());

    // Should not match UK number
    let context2 = CallContext {
        caller_id: "+442071234567".to_string(),
        destination: "2345".to_string(),
    };
    assert!(evaluator.evaluate(&context2).is_none());
}

#[test]
fn test_continue_on_match() {
    let mut config = RoutingConfig::new();

    let mut route1 = create_test_route("1", 10, r"^\d+$");
    route1.continue_on_match = true;
    route1.action = RouteAction::Continue;
    route1.destination = RouteDestination::Extension("1000".to_string());

    let mut route2 = create_test_route("2", 20, r"^\d+$");
    route2.destination = RouteDestination::Extension("2000".to_string());

    config.add_route(route1);
    config.add_route(route2);

    let evaluator = RouteEvaluator::new(config);

    let context = CallContext {
        caller_id: "+12125551234".to_string(),
        destination: "5000".to_string(),
    };

    // Should skip first route and match second
    let result = evaluator.evaluate(&context);
    assert!(result.is_some());
    let matched = result.unwrap();
    assert_eq!(matched.route_id, "2");
    if let RouteDestination::Extension(ext) = matched.destination {
        assert_eq!(ext, "2000");
    } else {
        panic!("Expected Extension destination");
    }
}

#[test]
fn test_disabled_route_not_matched() {
    let mut config = RoutingConfig::new();

    let mut route = create_test_route("1", 10, r"^\d+$");
    route.enabled = false;
    config.add_route(route);

    let evaluator = RouteEvaluator::new(config);

    let context = CallContext {
        caller_id: "+12125551234".to_string(),
        destination: "2345".to_string(),
    };

    let result = evaluator.evaluate(&context);
    assert!(result.is_none());
}

#[test]
fn test_reject_action() {
    let mut config = RoutingConfig::new();

    let mut route = create_test_route("1", 10, r"^900\d+$"); // Block premium numbers
    route.action = RouteAction::Reject;
    route.destination = RouteDestination::Hangup;
    config.add_route(route);

    let evaluator = RouteEvaluator::new(config);

    let context = CallContext {
        caller_id: "+12125551234".to_string(),
        destination: "9001234567".to_string(),
    };

    let result = evaluator.evaluate(&context);
    assert!(result.is_some());
    let matched = result.unwrap();
    assert!(matches!(matched.action, RouteAction::Reject));
    assert!(matches!(matched.destination, RouteDestination::Hangup));
}

#[test]
fn test_multiple_conditions() {
    let mut config = RoutingConfig::new();

    let mut route = create_test_route("1", 10, r"^\d{4}$");
    route.conditions = Some(vec![
        RouteCondition::Time(TimeCondition {
            start_time: "09:00".to_string(),
            end_time: "17:00".to_string(),
        }),
        RouteCondition::DayOfWeek(DayOfWeekCondition {
            days: vec![1, 2, 3, 4, 5], // Weekdays
        }),
    ]);
    config.add_route(route);

    // Test at 10:30 AM on Monday
    let mock_time = moment(2024, 1, 15, 10, 30, 0);
    let provider = MockTimeProvider {
        fixed_time: mock_time,
    };
    let matcher = ConditionMatcher::with_time_provider(provider);

    let evaluator = RouteEvaluator::with_matcher(config, matcher);

    let context = CallContext {
        caller_id: "+12125551234".to_string(),
        destination: "2345".to_string(),
    };

    let result = evaluator.evaluate(&context);
    assert!(result.is_some());
}

#[test]
fn route_with_conditions_on_monday_and_saturday() {
    let mut config = RoutingConfig::new();
    let mut route = create_test_route("office", 10, r"^\d{4}$");
    route.conditions = Some(vec![
        RouteCondition::Time(TimeCondition {
            start_time: "09:00".to_string(),
            end_time: "17:00".to_string(),
        }),
        RouteCondition::DayOfWeek(DayOfWeekCondition {
            days: vec![1, 2, 3, 4, 5],
        }),
    ]);
    config.add_route(route);
    let evaluator = RouteEvaluator::new(config);
    let context = CallContext {
        caller_id: "+12125551234".to_string(),
        destination: "2345".to_string(),
    };
    let monday = moment(2024, 1, 15, 10, 30, 0);
    assert_eq!(monday.weekday, 1);
    let saturday = moment(2024, 1, 20, 10, 30, 0);
    assert_eq!(saturday.weekday, 6);
    assert_eq!(evaluator.evaluate_at(&context, &monday).unwrap().route_id, "office");
    assert!(evaluator.evaluate_at(&context, &saturday).is_none());
    let monday_night = moment(2024, 1, 15, 17, 0, 1);
    assert!(evaluator.evaluate_at(&context, &monday_night).is_none());
    let other = CallContext {
        caller_id: "+12125551234".to_string(),
        destination: "23456".to_string(),
    };
    assert!(evaluator.evaluate_at(&other, &monday).is_none());
    assert_eq!(evaluator.config().routes.len(), 1);
}

#[test]
fn test_parse_time() {
    let time = parse_time("09:30").unwrap();
    assert_eq!(time / 3600, 9);
    assert_eq!(time % 3600 / 60, 30);

    assert!(parse_time("25:00").is_none());
    assert!(parse_time("09:60").is_none());
    assert!(parse_time("invalid").is_none());
}

#[test]
fn test_match_time_condition() {
    // Test at 10:30 AM
    let now = moment(2024, 1, 15, 10, 30, 0);

    let condition = TimeCondition {
        start_time: "09:00".to_string(),
        end_time: "17:00".to_string(),
    };

    assert!(match_time_condition(&condition, &now));

    let condition_night = TimeCondition {
        start_time: "18:00".to_string(),
        end_time: "08:00".to_string(),
    };

    assert!(!match_time_condition(&condition_night, &now));
}

#[test]
fn test_match_time_condition_crosses_midnight() {
    // Test at 23:00 (11 PM)
    let now = moment(2024, 1, 15, 23, 0, 0);

    let condition = TimeCondition {
        start_time: "22:00".to_string(),
        end_time: "06:00".to_string(),
    };

    assert!(match_time_condition(&condition, &now));
}

#[test]
fn test_match_day_of_week() {
    // Test on Monday (2024-01-15 is a Monday)
    let now = moment(2024, 1, 15, 10, 0, 0);

    let weekday_condition = DayOfWeekCondition {
        days: vec![1, 2, 3, 4, 5], // Monday-Friday
    };

    assert!(match_day_of_week(&weekday_condition, &now));

    let weekend_condition = DayOfWeekCondition {
        days: vec![6, 7], // Saturday-Sunday
    };

    assert!(!match_day_of_week(&weekend_condition, &now));
}

#[test]
fn test_match_date_range() {
    let now = moment(2024, 6, 15, 10, 0, 0);

    let condition = DateRangeCondition {
        start_date: "2024-06-01".to_string(),
        end_date: "2024-06-30".to_string(),
    };

    assert!(match_date_range(&condition, &now));

    let past_condition = DateRangeCondition {
        start_date: "2024-01-01".to_string(),
        end_date: "2024-05-31".to_string(),
    };

    assert!(!match_date_range(&past_condition, &now));
}

#[test]
fn test_match_caller_id() {
    let condition = CallerIdCondition {
        pattern: r"^\+1\d{10}$".to_string(), // US/Canada numbers
        negate: false,
    };

    assert!(match_caller_id(&condition, "+12125551234"));
    assert!(!match_caller_id(&condition, "+442071234567"));

    let negated_condition = CallerIdCondition {
        pattern: r"^anonymous$".to_string(),
        negate: true,
    };

    assert!(match_caller_id(&negated_condition, "+12125551234"));
    assert!(!match_caller_id(&negated_condition, "anonymous"));
}

#[test]
fn test_match_destination() {
    let condition = DestinationCondition {
        pattern: r"^[2-5]\d{3}$".to_string(), // 4-digit extensions 2000-5999
        negate: false,
    };

    assert!(match_destination(&condition, "2345"));
    assert!(!match_destination(&condition, "1234"));
    assert!(!match_destination(&condition, "+12125551234"));
}

#[test]
fn test_matches_all_conditions() {
    let mock_time = moment(2024, 1, 15, 10, 30, 0); // Monday 10:30
    let provider = MockTimeProvider {
        fixed_time: mock_time,
    };
    let matcher = ConditionMatcher::with_time_provider(provider);

    let conditions = vec![
        RouteCondition::Time(TimeCondition {
            start_time: "09:00".to_string(),
            end_time: "17:00".to_string(),
        }),
        RouteCondition::DayOfWeek(DayOfWeekCondition {
            days: vec![1, 2, 3, 4, 5],
        }),
        RouteCondition::CallerId(CallerIdCondition {
            pattern: r"^\+1".to_string(),
            negate: false,
        }),
    ];

    assert!(matcher.matches(&conditions, "+12125551234", "2000"));
    assert!(!matcher.matches(&conditions, "+442071234567", "2000"));
}

#[test]
fn times_of_day() {
    assert_eq!(parse_time("00:00"), Some(0));
    assert_eq!(parse_time("23:59"), Some(86340));
    assert_eq!(parse_time("9:5"), Some(9 * 3600 + 5 * 60));
    assert_eq!(parse_time("+9:+5"), Some(9 * 3600 + 5 * 60));
    assert_eq!(parse_time("24:00"), None);
    assert_eq!(parse_time("09:30:00"), None);
    assert_eq!(parse_time("09"), None);
    assert_eq!(parse_time(":"), None);
    assert_eq!(parse_time(" 09:30"), None);
    let c = TimeCondition {
        start_time: "09:00".to_string(),
        end_time: "17:00".to_string(),
    };
    assert!(match_time_condition(&c, &moment(2024, 1, 15, 9, 0, 0)));
    assert!(match_time_condition(&c, &moment(2024, 1, 15, 17, 0, 0)));
    assert!(!match_time_condition(&c, &moment(2024, 1, 15, 8, 59, 59)));
    assert!(!match_time_condition(&c, &moment(2024, 1, 15, 17, 0, 1)));
    let night = TimeCondition {
        start_time: "22:00".to_string(),
        end_time: "06:00".to_string(),
    };
    assert!(match_time_condition(&night, &moment(2024, 1, 15, 6, 0, 0)));
    assert!(!match_time_condition(&night, &moment(2024, 1, 15, 6, 0, 1)));
    assert!(!match_time_condition(&night, &moment(2024, 1, 15, 21, 59, 59)));
    let broken = TimeCondition {
        start_time: "nine".to_string(),
        end_time: "17:00".to_string(),
    };
    assert!(!match_time_condition(&broken, &moment(2024, 1, 15, 10, 0, 0)));
    // a clock that shows no time of day counts as midnight
    let mut odd = moment(2024, 1, 15, 10, 0, 0);
    odd.hour = 99;
    assert!(!match_time_condition(&c, &odd));
    let from_midnight = TimeCondition {
        start_time: "00:00".to_string(),
        end_time: "01:00".to_string(),
    };
    assert!(match_time_condition(&from_midnight, &odd));
}

#[test]
fn dates_and_patterns() {
    let june = DateRangeCondition {
        start_date: "2024-06-01".to_string(),
        end_date: "2024-06-30".to_string(),
    };
    assert!(match_date_range(&june, &moment(2024, 6, 1, 0, 0, 0)));
    assert!(match_date_range(&june, &moment(2024, 6, 30, 23, 59, 59)));
    assert!(!match_date_range(&june, &moment(2024, 5, 31, 23, 59, 59)));
    assert!(!match_date_range(&june, &moment(2024, 7, 1, 0, 0, 0)));
    assert!(!match_date_range(&june, &moment(2023, 6, 15, 0, 0, 0)));
    let years = DateRangeCondition {
        start_date: "2023-12-31".to_string(),
        end_date: "2025-01-01".to_string(),
    };
    assert!(match_date_range(&years, &moment(2024, 1, 1, 0, 0, 0)));
    let broken = DateRangeCondition {
        start_date: "2024-02-30".to_string(),
        end_date: "2024-06-30".to_string(),
    };
    assert!(!match_date_range(&broken, &moment(2024, 6, 1, 0, 0, 0)));
    assert!(matches_pattern(r"^\d+$", "123"));
    assert!(!matches_pattern(r"^\d+$", "12a"));
    // a pattern that is no regular expression matches nothing, negated or not
    assert!(!matches_pattern("(", "("));
    let bad = CallerIdCondition {
        pattern: "(".to_string(),
        negate: true,
    };
    assert!(!match_caller_id(&bad, "anything"));
    assert!(all_match(&vec![], "a", "b", &moment(2024, 1, 1, 0, 0, 0)));
}

#[test]
fn evaluation_outcomes() {
    let now = moment(2024, 1, 15, 10, 30, 0);
    let context = CallContext {
        caller_id: "1".to_string(),
        destination: "5000".to_string(),
    };
    assert!(evaluate_routes(&vec![], &context, &now).is_none());
    // continue_on_match with Accept or Reject returns the match
    let mut r1 = create_test_route("1", 1, r"^\d+$");
    r1.continue_on_match = true;
    r1.action = RouteAction::Reject;
    r1.destination = RouteDestination::Trunk("t".to_string());
    let m = evaluate_routes(&vec![r1.clone()], &context, &now).unwrap();
    assert_eq!(m.route_id, "1");
    assert_eq!(m.route_name, "Route 1");
    assert_eq!(m.action, RouteAction::Reject);
    assert_eq!(m.destination, RouteDestination::Trunk("t".to_string()));
    assert_eq!(m.destination.target(), Some("t"));
    assert_eq!(RouteDestination::Hangup.target(), None);
    // Continue without continue_on_match returns the match
    let mut r2 = create_test_route("2", 2, r"^\d+$");
    r2.action = RouteAction::Continue;
    assert_eq!(evaluate_routes(&vec![r2], &context, &now).unwrap().route_id, "2");
    // only Continue with continue_on_match is passed over
    let mut r3 = create_test_route("3", 3, r"^\d+$");
    r3.action = RouteAction::Continue;
    r3.continue_on_match = true;
    assert!(evaluate_routes(&vec![r3], &context, &now).is_none());
    // an invalid pattern never matches
    let r4 = create_test_route("4", 4, "(");
    assert!(evaluate_routes(&vec![r4], &context, &now).is_none());
    let mut ev = RouteEvaluator::new(RoutingConfig::default());
    assert!(ev.evaluate(&context).is_none());
    let mut config = RoutingConfig::new();
    config.add_route(r1);
    ev.update_config(config);
    assert!(ev.evaluate(&context).is_some());
    let mut config = RoutingConfig::new();
    let mut off = create_test_route("off", 1, ".*");
    off.enabled = false;
    config.add_route(off);
    config.add_route(create_test_route("b", 7, ".*"));
    config.add_route(create_test_route("a", 7, ".*"));
    let ids: Vec<&str> = config.enabled_routes().iter().map(|r| r.id.as_str()).collect();
    assert_eq!(ids, vec!["b", "a"]);
}

#[test]
fn the_system_clock_gives_a_date_and_a_time() {
    use_system_clock();
}

fn use_system_clock() {
    let now = rustalk::routing::matcher::SystemTimeProvider.now();
    assert!((1..=12).contains(&now.month));
    assert!((1..=31).contains(&now.day));
    assert!(now.hour <= 23 && now.minute <= 59 && now.second <= 59);
    assert!((1..=7).contains(&now.weekday));
    assert!(now.year >= 2024);
    let date = chrono::NaiveDate::from_ymd_opt(now.year, now.month, now.day).unwrap();
    assert_eq!(date.weekday().number_from_monday(), now.weekday);
    let matcher = ConditionMatcher::new();
    let again = matcher.now();
    assert!(again.year >= now.year);
}
