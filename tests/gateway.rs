use deepseek_proxy::config::{
    AuthConfig, Config, DeepSeekConfig, HttpClientConfig, QuotaConfig, RateLimitConfig, SecurityConfig, ServerConfig,
    User,
};
use deepseek_proxy::error::{AppError, AuthError};
use deepseek_proxy::gateway::{Gateway, LoginRequest};
use deepseek_proxy::jwt::{claims_from, JwtService};
use deepseek_proxy::limiter::LoginLimiter;
use deepseek_proxy::user_manager::UserManager;
use deepseek_proxy::utils::unix_now;

fn config(rps: usize) -> Config {
    Config {
        server: ServerConfig { host: "127.0.0.1".to_string(), port: 8080 },
        auth: AuthConfig { users: vec![], jwt_secret: "secret".to_string(), token_ttl_seconds: 3600 },
        deepseek: DeepSeekConfig {
            api_key: "k".to_string(),
            base_url: "http://localhost".to_string(),
            timeout_seconds: 30,
            http_client: HttpClientConfig::default(),
        },
        rate_limit: RateLimitConfig { requests_per_second: rps },
        quota: QuotaConfig::default(),
        security: SecurityConfig::default(),
    }
}

fn gateway() -> Gateway {
    let mut users = UserManager::new();
    for (name, pw, active) in [("alice", "rightpw", true), ("bob", "pw", false)] {
        users.save_user(User {
            username: name.to_string(),
            password: pw.to_string(),
            quota_tier: "basic".to_string(),
            is_active: active,
            created_at: None,
            updated_at: None,
        });
    }
    let jwt = JwtService::new("secret".to_string(), 3600).unwrap();
    Gateway::new(&config(1000), users, jwt, 0).unwrap()
}

fn req(u: &str, p: &str) -> LoginRequest {
    LoginRequest { username: u.to_string(), password: p.to_string() }
}

#[test]
fn brute_force_blocks_from_the_attempt_after_the_threshold() {
    let mut g = gateway();
    let now = unix_now().unwrap();
    for attempt in 1..=5u64 {
        let r = g.login(&req("alice", "wrongpw"), "10.0.0.1", attempt * 1000, now);
        assert!(matches!(r, Err(AppError::Unauthorized(_))), "attempt {}", attempt);
    }
    let r = g.login(&req("alice", "wrongpw"), "10.0.0.1", 6_000, now);
    assert!(matches!(r, Err(AppError::TooManyRequests)));
    let r = g.login(&req("alice", "rightpw"), "10.0.0.1", 7_000, now);
    assert!(matches!(r, Err(AppError::TooManyRequests)));
    // another address is not blocked
    assert!(g.login(&req("alice", "rightpw"), "10.0.0.2", 8_000, now).is_ok());
    // once the window has passed the first failures no longer count
    assert!(g.login(&req("alice", "rightpw"), "10.0.0.1", 63_000, now).is_ok());
}

#[test]
fn success_forgets_the_failures() {
    let mut g = gateway();
    let now = unix_now().unwrap();
    for t in 1..=4u64 {
        assert!(g.login(&req("alice", "bad"), "1.2.3.4", t, now).is_err());
    }
    assert!(g.login(&req("alice", "rightpw"), "1.2.3.4", 10, now).is_ok());
    for t in 11..=14u64 {
        assert!(matches!(g.login(&req("alice", "bad"), "1.2.3.4", t, now), Err(AppError::Unauthorized(_))));
    }
}

#[test]
fn logins_within_the_ttl_get_the_same_token() {
    let mut g = gateway();
    let now = unix_now().unwrap();
    let a = g.login(&req("alice", "rightpw"), "1.1.1.1", 0, now).unwrap();
    let b = g.login(&req("alice", "rightpw"), "1.1.1.1", 59_999, now + 59).unwrap();
    assert_eq!(a.token, b.token);
    assert_eq!(a.expires_in, 60);
    let claims = g.jwt.validate_token(&a.token).unwrap();
    assert_eq!(claims.sub, "alice");
    let c = g.login(&req("alice", "rightpw"), "1.1.1.1", 60_000, now + 1).unwrap();
    assert_ne!(a.token, c.token);
}

#[test]
fn disabled_account_is_refused() {
    let mut g = gateway();
    let r = g.login(&req("bob", "pw"), "1.1.1.1", 0, unix_now().unwrap());
    assert!(matches!(r, Err(AppError::Auth(AuthError::AccountDisabled))));
    assert_eq!(AppError::account_disabled().into_response_parts().status, 403);
}

#[test]
fn second_parallel_chat_is_refused_and_the_first_counts_once() {
    let mut g = gateway();
    let now = unix_now().unwrap();
    g.login(&req("alice", "rightpw"), "1.1.1.1", 0, now).unwrap();
    let permit = g.admit_chat("alice", None, 10, now).unwrap();
    assert!(matches!(g.admit_chat("alice", None, 20, now), Err(AppError::TooManyRequests)));
    let writes = g.complete_chat("alice", now).unwrap();
    assert!(writes.is_empty());
    assert_eq!(g.quotas.get_quota("alice", None, &g.users, now).unwrap().used_count, 1);
    g.finish_chat(permit);
    let permit = g.admit_chat("alice", None, 30, now).unwrap();
    g.finish_chat(permit);
}

#[test]
fn upstream_failure_leaves_the_quota_alone() {
    let mut g = gateway();
    let now = unix_now().unwrap();
    g.login(&req("alice", "rightpw"), "1.1.1.1", 0, now).unwrap();
    let permit = g.admit_chat("alice", None, 10, now).unwrap();
    // the upstream answered 500: the client sees 502 and nothing is counted
    let answer = AppError::upstream_api_error(500, "Internal Server Error".to_string()).into_response_parts();
    assert_eq!(answer.status, 502);
    g.finish_chat(permit);
    assert_eq!(g.quotas.get_quota("alice", None, &g.users, now).unwrap().used_count, 0);
    // the permit came back: the next request of the user is admitted
    let again = g.admit_chat("alice", None, 20, now).unwrap();
    g.finish_chat(again);
}

#[test]
fn chat_without_login_needs_a_new_token() {
    let mut g = gateway();
    let now = unix_now().unwrap();
    let r = g.admit_chat("alice", None, 10, now);
    assert!(matches!(r, Err(AppError::Auth(AuthError::TokenExpired))));
    g.login(&req("alice", "rightpw"), "1.1.1.1", 0, now).unwrap();
    assert!(matches!(g.admit_chat("alice", None, 60_001, now), Err(AppError::Auth(AuthError::TokenExpired))));
}

#[test]
fn exhausted_quota_answers_payment_required_before_the_permit() {
    let mut g = gateway();
    let now = unix_now().unwrap();
    g.login(&req("alice", "rightpw"), "1.1.1.1", 0, now).unwrap();
    let mut s = g.quotas.get_quota("alice", None, &g.users, now).unwrap();
    s.used_count = 500;
    let mut fresh = gateway();
    fresh.login(&req("alice", "rightpw"), "1.1.1.1", 0, now).unwrap();
    let r = fresh.admit_chat("alice", Some(s), 10, now);
    assert!(matches!(r, Err(AppError::PaymentRequired { used: 500, limit: 500, .. })));
    // the permit was not taken
    let p = fresh.tokens.acquire_permit_by_username("alice", 20).unwrap();
    fresh.tokens.release_permit(p);
}

#[test]
fn global_bucket_refuses_before_anything_else() {
    let mut users = UserManager::new();
    users.save_user(User {
        username: "alice".to_string(),
        password: "pw".to_string(),
        quota_tier: "basic".to_string(),
        is_active: true,
        created_at: None,
        updated_at: None,
    });
    let jwt = JwtService::new("s".to_string(), 30).unwrap();
    let mut g = Gateway::new(&config(1), users, jwt, 0).unwrap();
    let now = unix_now().unwrap();
    assert!(g.login(&req("alice", "pw"), "1.1.1.1", 0, now).is_ok());
    assert!(g.admit_chat("alice", None, 0, now).is_ok());
    assert!(matches!(g.admit_chat("alice", None, 0, now), Err(AppError::TooManyRequests)));
    assert!(!g.quotas.is_loaded("nobody"));
    assert!(Gateway::new(&config(0), UserManager::new(), JwtService::new("s".to_string(), 30).unwrap(), 0).is_err());
}

#[test]
fn token_manager_reuses_and_releases() {
    let mut m = LoginLimiter::new(10);
    let t1 = m.get_or_generate("u1", 0, || Ok::<String, AppError>("first".to_string())).unwrap();
    let t2 = m.get_or_generate("u1", 9_999, || Ok::<String, AppError>("second".to_string())).unwrap();
    assert_eq!((t1.as_str(), t2.as_str()), ("first", "first"));
    let (t, p) = m.get_token_and_permit("u2", 0, || Ok("minted".to_string())).unwrap();
    assert_eq!(t, "minted");
    assert!(matches!(m.get_token_and_permit("u2", 1, || Ok("again".to_string())), Err(AppError::TooManyRequests)));
    m.release_permit(p);
    let (t, p) = m.get_token_and_permit("u2", 2, || Ok("again".to_string())).unwrap();
    assert_eq!(t, "minted");
    m.release_permit(p);
    let t3 = m.get_or_generate("u1", 10_000, || Ok::<String, AppError>("third".to_string())).unwrap();
    assert_eq!(t3, "third");
    let e = m.get_or_generate("u9", 0, || Err::<String, AppError>(AppError::QueueTimeout));
    assert!(e.is_err());
    assert!(matches!(m.acquire_permit_by_username("u9", 0), Err(AppError::Auth(AuthError::TokenExpired))));
}

#[test]
fn jwt_service_rejects_bad_lifetimes_and_caps_at_a_minute() {
    assert!(JwtService::new("s".to_string(), 0).is_err());
    assert!(JwtService::new("s".to_string(), u64::MAX).is_err());
    assert_eq!(JwtService::new("s".to_string(), 30).unwrap().get_ttl_seconds(), 30);
    assert_eq!(JwtService::new("s".to_string(), 3600).unwrap().get_ttl_seconds(), 60);
    let j = JwtService::new("s".to_string(), 30).unwrap();
    let t = j.generate_token("alice", unix_now().unwrap()).unwrap();
    assert_eq!(t.split('.').count(), 3);
    assert!(matches!(JwtService::new("other".to_string(), 30).unwrap().validate_token(&t), Err(AppError::Unauthorized(_))));
    let old = j.generate_token("alice", 1_000_000).unwrap();
    assert!(j.validate_token(&old).is_err());
}

#[test]
fn decoded_claims_need_both_members() {
    let c = claims_from(Some("alice".to_string()), Some(42)).unwrap();
    assert_eq!((c.sub.as_str(), c.exp), ("alice", 42));
    assert!(matches!(claims_from(None, Some(42)), Err(AppError::Unauthorized(_))));
    assert!(matches!(claims_from(Some("alice".to_string()), None), Err(AppError::Unauthorized(_))));
}
