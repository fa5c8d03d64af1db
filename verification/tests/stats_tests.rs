//! Tests of the statistics counters, the derived health verdict, and the
//! drain decision.

use iterm_mcp::stats::{drain_action, drain_should_announce, DrainAction, HealthStatus, ServerStats};

#[test]
fn fresh_stats_are_zero() {
    let stats = ServerStats::new();
    assert_eq!(stats.total_connections, 0);
    assert_eq!(stats.active_connections, 0);
    assert_eq!(stats.total_messages, 0);
    assert_eq!(stats.total_errors, 0);
}

#[test]
fn opened_and_closed_connections_balance() {
    let mut stats = ServerStats::new();
    let n = 7;
    for _ in 0..n {
        stats.record_connection_opened();
    }
    assert_eq!(stats.total_connections, n);
    assert_eq!(stats.active_connections, n);
    for _ in 0..n {
        stats.record_connection_closed();
    }
    assert_eq!(stats.total_connections, n);
    assert_eq!(stats.active_connections, 0);
}

#[test]
fn unhealthy_when_error_rate_over_ten_percent() {
    let stats = ServerStats {
        total_connections: 10,
        active_connections: 1,
        total_messages: 100,
        total_errors: 11,
    };
    match stats.health_check() {
        HealthStatus::Unhealthy { reason } => {
            assert_eq!(reason, "error rate too high: 11.00%");
        }
        other => panic!("expected Unhealthy, got {:?}", other),
    }
}

#[test]
fn healthy_at_five_errors_per_hundred_messages() {
    let stats = ServerStats {
        total_connections: 10,
        active_connections: 1,
        total_messages: 100,
        total_errors: 5,
    };
    assert!(matches!(stats.health_check(), HealthStatus::Healthy));
}

#[test]
fn healthy_with_no_messages_at_all() {
    let stats = ServerStats {
        total_connections: 0,
        active_connections: 0,
        total_messages: 0,
        total_errors: 0,
    };
    assert!(matches!(stats.health_check(), HealthStatus::Healthy));
}

#[test]
fn degraded_over_thousand_active_connections() {
    let stats = ServerStats {
        total_connections: 2000,
        active_connections: 1001,
        total_messages: 100,
        total_errors: 0,
    };
    match stats.health_check() {
        HealthStatus::Degraded { reason } => {
            assert_eq!(reason, "too many active connections: 1001");
        }
        other => panic!("expected Degraded, got {:?}", other),
    }
}

#[test]
fn exactly_ten_percent_is_still_healthy() {
    let stats = ServerStats {
        total_connections: 1,
        active_connections: 1,
        total_messages: 10,
        total_errors: 1,
    };
    assert!(matches!(stats.health_check(), HealthStatus::Healthy));
}

#[test]
fn fractional_error_rate_is_rendered_with_two_decimals() {
    let stats = ServerStats {
        total_connections: 1,
        active_connections: 1,
        total_messages: 7,
        total_errors: 1,
    };
    match stats.health_check() {
        HealthStatus::Unhealthy { reason } => {
            // 1/7 = 14.2857...%, rounded down to two decimals.
            assert_eq!(reason, "error rate too high: 14.28%");
        }
        other => panic!("expected Unhealthy, got {:?}", other),
    }
}

#[test]
fn drain_decisions_follow_the_poll_budget() {
    assert!(matches!(drain_action(0, 0), DrainAction::Stop));
    assert!(matches!(drain_action(0, 99), DrainAction::Stop));
    assert!(matches!(drain_action(3, 0), DrainAction::Wait));
    assert!(matches!(drain_action(3, 29), DrainAction::Wait));
    assert!(matches!(drain_action(3, 30), DrainAction::ForcedStop));
    assert!(drain_should_announce(0));
    assert!(!drain_should_announce(4));
    assert!(drain_should_announce(5));
}
