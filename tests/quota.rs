use deepseek_proxy::config::{QuotaTiersConfig, User};
use deepseek_proxy::error::AppError;
use deepseek_proxy::quota::{QuotaManager, QuotaState, QuotaStatus, QuotaTier};
use deepseek_proxy::user_manager::UserManager;
use deepseek_proxy::utils::{next_month_reset, rfc3339_beijing};

// 2025-01-31T23:59:59+08:00 and the second after it
const JAN_LAST_SECOND: i64 = 1_738_339_199;
const FEB_FIRST: i64 = 1_738_339_200;
const MAR_FIRST: i64 = 1_740_758_400;

fn tiers() -> QuotaTiersConfig {
    QuotaTiersConfig { basic: 500, pro: 1000, premium: 1500 }
}

fn store_with(name: &str, tier: &str) -> UserManager {
    let mut users = UserManager::new();
    users.save_user(User {
        username: name.to_string(),
        password: "pw".to_string(),
        quota_tier: tier.to_string(),
        is_active: true,
        created_at: None,
        updated_at: None,
    });
    users
}

fn state(name: &str, used: u32, last_saved: u32, limit: u32, reset_at: i64) -> QuotaState {
    QuotaState {
        username: name.to_string(),
        tier: "basic".to_string(),
        monthly_limit: limit,
        used_count: used,
        last_saved_count: last_saved,
        reset_at,
        last_saved_at: None,
        dirty: false,
    }
}

#[test]
fn tiers_parse_in_any_case_and_have_their_limits() {
    assert_eq!(QuotaTier::from_str("PRO"), Some(QuotaTier::Pro));
    assert_eq!(QuotaTier::from_str("Premium"), Some(QuotaTier::Premium));
    assert_eq!(QuotaTier::from_str("basic"), Some(QuotaTier::Basic));
    assert_eq!(QuotaTier::from_str("gold"), None);
    assert_eq!(QuotaTier::Pro.as_str(), "pro");
    assert_eq!(QuotaTier::Premium.limit(&tiers()), 1500);
    assert_eq!(QuotaTier::Basic.limit(&QuotaTiersConfig::default()), 500);
}

#[test]
fn reset_instant_is_the_first_second_of_next_month_in_utc8() {
    assert_eq!(next_month_reset(JAN_LAST_SECOND), Some(FEB_FIRST));
    assert_eq!(next_month_reset(FEB_FIRST), Some(MAR_FIRST));
    assert_eq!(rfc3339_beijing(MAR_FIRST).unwrap(), "2025-03-01T00:00:00+08:00");
    // December wraps to January of the next year: 2025-12-15T12:00:00+08:00
    assert_eq!(rfc3339_beijing(next_month_reset(1_765_771_200).unwrap()).unwrap(), "2026-01-01T00:00:00+08:00");
}

#[test]
fn first_use_materializes_state_and_writes_every_hundred() {
    let users = store_with("alice", "basic");
    let mut q = QuotaManager::new(tiers(), 100);
    let now = JAN_LAST_SECOND - 86_400;
    let s = q.get_quota("alice", None, &users, now).unwrap();
    assert_eq!((s.used_count, s.monthly_limit, s.reset_at), (0, 500, FEB_FIRST));
    let writes = q.increment_quota("alice", None, &users, now).unwrap();
    assert!(writes.is_empty());
    assert_eq!(q.get_quota("alice", None, &users, now).unwrap().used_count, 1);
    for _ in 2..100 {
        assert!(q.increment_quota("alice", None, &users, now).unwrap().is_empty());
    }
    let writes = q.increment_quota("alice", None, &users, now).unwrap();
    assert_eq!(writes.len(), 1);
    assert_eq!((writes[0].used_count, writes[0].last_saved_count), (100, 100));
    let kept = q.get_quota("alice", None, &users, now).unwrap();
    assert_eq!(kept.used_count, writes[0].used_count);
}

#[test]
fn unknown_user_without_file_is_unauthorized() {
    let users = UserManager::new();
    let mut q = QuotaManager::new(tiers(), 100);
    assert!(matches!(q.check_quota("ghost", None, &users, FEB_FIRST), Err(AppError::Unauthorized(_))));
    assert!(!q.is_loaded("ghost"));
}

#[test]
fn file_state_wins_over_the_user_store() {
    let users = store_with("bob", "premium");
    let mut q = QuotaManager::new(tiers(), 100);
    let st = q.check_quota("bob", Some(state("bob", 7, 0, 20, FEB_FIRST)), &users, JAN_LAST_SECOND).unwrap();
    assert_eq!(st, QuotaStatus::Allowed { used: 7, limit: 20, remaining: 13, reset_at: FEB_FIRST });
}

#[test]
fn last_request_of_the_month_is_admitted_then_the_next_is_refused() {
    let users = store_with("carol", "basic");
    let mut q = QuotaManager::new(tiers(), 100);
    let st = q.check_quota("carol", Some(state("carol", 499, 450, 500, FEB_FIRST)), &users, JAN_LAST_SECOND).unwrap();
    assert!(matches!(st, QuotaStatus::Allowed { used: 499, remaining: 1, .. }));
    q.increment_quota("carol", None, &users, JAN_LAST_SECOND).unwrap();
    let st = q.check_quota("carol", None, &users, JAN_LAST_SECOND).unwrap();
    assert_eq!(st, QuotaStatus::Exceeded { used: 500, limit: 500, reset_at: FEB_FIRST });
}

#[test]
fn month_boundary_resets_then_counts_and_writes_at_once() {
    let users = store_with("dave", "basic");
    let mut q = QuotaManager::new(tiers(), 100);
    q.check_quota("dave", Some(state("dave", 480, 480, 500, FEB_FIRST)), &users, JAN_LAST_SECOND).unwrap();
    let writes = q.increment_quota("dave", None, &users, JAN_LAST_SECOND).unwrap();
    assert!(writes.is_empty());
    assert_eq!(q.get_quota("dave", None, &users, JAN_LAST_SECOND).unwrap().used_count, 481);
    let writes = q.increment_quota("dave", None, &users, FEB_FIRST).unwrap();
    assert_eq!(writes.len(), 1);
    assert_eq!((writes[0].used_count, writes[0].last_saved_count), (0, 0));
    assert_eq!(writes[0].reset_at, MAR_FIRST);
    let now = q.get_quota("dave", None, &users, FEB_FIRST).unwrap();
    assert_eq!((now.used_count, now.reset_at), (1, MAR_FIRST));
}

#[test]
fn shutdown_writes_every_pending_count() {
    let users = store_with("erin", "pro");
    let mut q = QuotaManager::new(tiers(), 100);
    let now = JAN_LAST_SECOND - 3_600;
    for _ in 0..37 {
        assert!(q.increment_quota("erin", None, &users, now).unwrap().is_empty());
    }
    let saved = q.save_all(now);
    assert_eq!(saved.len(), 1);
    assert_eq!(saved[0].0, "erin");
    assert_eq!((saved[0].1.used_count, saved[0].1.last_saved_count), (37, 37));
    assert_eq!(saved[0].1.monthly_limit, 1000);
    assert!(saved[0].1.last_saved_at.is_some());
}

#[test]
fn write_interval_of_one_writes_every_increment() {
    let users = store_with("fay", "basic");
    let mut q = QuotaManager::new(tiers(), 1);
    let w = q.increment_quota("fay", None, &users, JAN_LAST_SECOND).unwrap();
    assert_eq!(w.len(), 1);
    assert_eq!(w[0].used_count, 1);
    assert_eq!(w[0].last_saved_at.as_deref(), Some("2025-01-31T23:59:59+08:00"));
}
