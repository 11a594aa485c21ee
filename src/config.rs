//! Service configuration: the sections of the TOML file and their defaults.
//! Reading the file and the environment is left to the caller.

use vstd::prelude::*;

verus! {

#[derive(Debug, Clone)]
pub struct Config {
    pub server: ServerConfig,
    pub auth: AuthConfig,
    pub deepseek: DeepSeekConfig,
    pub rate_limit: RateLimitConfig,
    pub quota: QuotaConfig,
    pub security: SecurityConfig,
}

#[derive(Debug, Clone)]
pub struct ServerConfig {
    pub host: String,
    pub port: u16,
}

#[derive(Debug, Clone)]
pub struct AuthConfig {
    /// Users imported when the user directory is empty.
    pub users: Vec<User>,
    pub jwt_secret: String,
    pub token_ttl_seconds: u64,
}

/// A user record, as stored in the user directory.
#[derive(Debug, Clone)]
pub struct User {
    pub username: String,
    pub password: String,
    /// `basic`, `pro` or `premium`.
    pub quota_tier: String,
    /// `false` marks the account as deactivated.
    pub is_active: bool,
    pub created_at: Option<String>,
    pub updated_at: Option<String>,
}

/// The abstract content of a user record.
pub struct UserView {
    pub username: Seq<char>,
    pub password: Seq<char>,
    pub quota_tier: Seq<char>,
    pub is_active: bool,
    pub created_at: Option<Seq<char>>,
    pub updated_at: Option<Seq<char>>,
}

pub open spec fn opt_view(o: Option<String>) -> Option<Seq<char>> {
    match o {
        Some(s) => Some(s@),
        None => None,
    }
}

impl View for User {
    type V = UserView;

    open spec fn view(&self) -> UserView {
        UserView {
            username: self.username@,
            password: self.password@,
            quota_tier: self.quota_tier@,
            is_active: self.is_active,
            created_at: opt_view(self.created_at),
            updated_at: opt_view(self.updated_at),
        }
    }
}

/// A copy of an optional string.
pub fn copy_opt_string(o: &Option<String>) -> (r: Option<String>)
    ensures
        opt_view(r) == opt_view(*o),
{
    match o {
        Some(s) => Some(s.clone()),
        None => None,
    }
}

impl User {
    /// A field-by-field copy of the record.
    pub fn duplicate(&self) -> (r: User)
        ensures
            r@ == self@,
    {
        User {
            username: self.username.clone(),
            password: self.password.clone(),
            quota_tier: self.quota_tier.clone(),
            is_active: self.is_active,
            created_at: copy_opt_string(&self.created_at),
            updated_at: copy_opt_string(&self.updated_at),
        }
    }
}

/// The tier given to a user whose record names none.
pub fn default_quota_tier() -> (r: String)
    ensures
        r@ == "basic"@,
{
    String::from_str("basic")
}

/// A user record that does not say otherwise is active.
pub fn default_is_active() -> (r: bool)
    ensures
        r,
{
    true
}

#[derive(Debug, Clone)]
pub struct DeepSeekConfig {
    pub api_key: String,
    pub base_url: String,
    pub timeout_seconds: u64,
    pub http_client: HttpClientConfig,
}

#[derive(Debug, Clone, Copy)]
pub struct HttpClientConfig {
    pub pool_max_idle_per_host: usize,
    pub pool_idle_timeout_seconds: u64,
    pub connect_timeout_seconds: u64,
    pub tcp_nodelay: bool,
    pub http2_adaptive_window: bool,
}

impl Default for HttpClientConfig {
    fn default() -> (r: Self)
        ensures
            r.pool_max_idle_per_host == 20,
            r.pool_idle_timeout_seconds == 90,
            r.connect_timeout_seconds == 10,
            r.tcp_nodelay,
            r.http2_adaptive_window,
    {
        HttpClientConfig {
            pool_max_idle_per_host: default_pool_max_idle_per_host(),
            pool_idle_timeout_seconds: default_pool_idle_timeout_seconds(),
            connect_timeout_seconds: default_connect_timeout_seconds(),
            tcp_nodelay: default_tcp_nodelay(),
            http2_adaptive_window: default_http2_adaptive_window(),
        }
    }
}

pub fn default_pool_max_idle_per_host() -> (r: usize)
    ensures
        r == 20,
{
    20
}

pub fn default_pool_idle_timeout_seconds() -> (r: u64)
    ensures
        r == 90,
{
    90
}

pub fn default_connect_timeout_seconds() -> (r: u64)
    ensures
        r == 10,
{
    10
}

pub fn default_tcp_nodelay() -> (r: bool)
    ensures
        r,
{
    true
}

pub fn default_http2_adaptive_window() -> (r: bool)
    ensures
        r,
{
    true
}

#[derive(Debug, Clone, Copy)]
pub struct RateLimitConfig {
    pub requests_per_second: usize,
}

#[derive(Debug, Clone)]
pub struct SecurityConfig {
    /// Failures older than this many seconds no longer count.
    pub login_fail_window_seconds: u64,
    /// Failures within the window at which logins are refused.
    pub login_fail_threshold: usize,
    pub webhook_url: Option<String>,
}

impl Default for SecurityConfig {
    fn default() -> (r: Self)
        ensures
            r.login_fail_window_seconds == 60,
            r.login_fail_threshold == 5,
            r.webhook_url is None,
    {
        SecurityConfig {
            login_fail_window_seconds: default_login_fail_window_seconds(),
            login_fail_threshold: default_login_fail_threshold(),
            webhook_url: None,
        }
    }
}

pub fn default_login_fail_window_seconds() -> (r: u64)
    ensures
        r == 60,
{
    60
}

pub fn default_login_fail_threshold() -> (r: usize)
    ensures
        r == 5,
{
    5
}

#[derive(Debug, Clone, Copy)]
pub struct QuotaConfig {
    /// Increments between two writes of a user's quota file.
    pub save_interval: u32,
    /// Day of the month the counters reset on.
    pub monthly_reset_day: u32,
    pub tiers: QuotaTiersConfig,
}

/// Monthly request limit of each tier.
#[derive(Debug, Clone, Copy)]
pub struct QuotaTiersConfig {
    pub basic: u32,
    pub pro: u32,
    pub premium: u32,
}

impl Default for QuotaConfig {
    fn default() -> (r: Self)
        ensures
            r.save_interval == 100,
            r.monthly_reset_day == 1,
            r.tiers.basic == 500,
            r.tiers.pro == 1000,
            r.tiers.premium == 1500,
    {
        QuotaConfig {
            save_interval: default_save_interval(),
            monthly_reset_day: default_monthly_reset_day(),
            tiers: QuotaTiersConfig::default(),
        }
    }
}

impl Default for QuotaTiersConfig {
    fn default() -> (r: Self)
        ensures
            r.basic == 500,
            r.pro == 1000,
            r.premium == 1500,
    {
        QuotaTiersConfig {
            basic: default_basic_quota(),
            pro: default_pro_quota(),
            premium: default_premium_quota(),
        }
    }
}

pub fn default_save_interval() -> (r: u32)
    ensures
        r == 100,
{
    100
}

pub fn default_monthly_reset_day() -> (r: u32)
    ensures
        r == 1,
{
    1
}

pub fn default_basic_quota() -> (r: u32)
    ensures
        r == 500,
{
    500
}

pub fn default_pro_quota() -> (r: u32)
    ensures
        r == 1000,
{
    1000
}

pub fn default_premium_quota() -> (r: u32)
    ensures
        r == 1500,
{
    1500
}

} // verus!
