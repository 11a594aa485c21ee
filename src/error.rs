//! Error kinds of the service and how each one is answered over HTTP.

use crate::text::{decimal_of, decimal_string, join2};
use vstd::prelude::*;

verus! {

/// Authentication and authorization failures.
#[derive(Debug)]
pub enum AuthError {
    Unauthorized(String),
    TokenExpired,
    InvalidToken,
    UserNotFound,
    AccountDisabled,
    InvalidCredentials,
}

/// Quota failures.
#[derive(Debug)]
pub enum QuotaError {
    Exceeded { used: u32, limit: u32, reset_at: String },
    FileReadError(String),
    FileWriteError(String),
    InvalidTier(String),
}

/// Failures of the upstream chat service.
#[derive(Debug)]
pub enum UpstreamError {
    Timeout,
    ApiError { status: u16, message: String },
    NetworkError(String),
    InvalidResponse(String),
}

/// Internal failures.
#[derive(Debug)]
pub enum SystemError {
    Internal(String),
    Configuration(String),
    FileIo(String),
    Serialization(String),
    Database(String),
}

/// Every failure the service reports.
#[derive(Debug)]
pub enum AppError {
    Auth(AuthError),
    Quota(QuotaError),
    Upstream(UpstreamError),
    System(SystemError),
    Unauthorized(String),
    BadRequest(String),
    NotFound(String),
    PaymentRequired { used: u32, limit: u32, reset_at: String },
    QueueTimeout,
    TooManyRequests,
    GatewayTimeout,
    GlmError(String),
    InternalError(String),
}

/// The body of an error answer.
#[derive(Debug)]
pub enum ErrorBody {
    /// `{"error": {"code": code, "message": message}}`
    Coded { code: String, message: String },
    /// `{"error": "quota_exceeded", "message": .., "details": {used, limit, reset_at}, "upgrade_url": ..}`
    QuotaExceeded { used: u32, limit: u32, reset_at: String },
}

/// Status line and body of an error answer.
#[derive(Debug)]
pub struct ErrorResponse {
    pub status: u16,
    pub body: ErrorBody,
}

/// Text of a quota-exceeded answer.
pub const QUOTA_EXCEEDED_MESSAGE: &'static str = "月度配额已耗尽，请升级套餐或等待下月重置";

/// Where a quota-exceeded answer sends the client to upgrade.
pub const UPGRADE_URL: &'static str = "https://your-site.com/upgrade";

/// Kinds of I/O failure that are answered differently.
#[derive(Debug, Clone, Copy, PartialEq, Eq, Structural)]
pub enum IoErrorKind {
    NotFound,
    PermissionDenied,
    TimedOut,
    Other,
}

/// Status, code and message of an answer with a coded body.
pub open spec fn coded(status: u16, code: Seq<char>, message: Seq<char>) -> (u16, Seq<char>, Seq<char>) {
    (status, code, message)
}

/// Status, code and message of the answer to `e`; for the two quota
/// variants only the status is meaningful.
pub open spec fn answer_of(e: AppError) -> (u16, Seq<char>, Seq<char>) {
    match e {
        AppError::Auth(a) => match a {
            AuthError::Unauthorized(m) => coded(401, "unauthorized"@, m@),
            AuthError::TokenExpired => coded(401, "token_expired"@, "Token 已过期，请重新登录"@),
            AuthError::InvalidToken => coded(401, "invalid_token"@, "Token 无效"@),
            AuthError::UserNotFound => coded(401, "user_not_found"@, "用户不存在"@),
            AuthError::AccountDisabled => coded(403, "account_disabled"@, "账户已被停用"@),
            AuthError::InvalidCredentials => coded(401, "invalid_credentials"@, "用户名或密码错误"@),
        },
        AppError::Quota(q) => match q {
            QuotaError::Exceeded { .. } => coded(402, Seq::empty(), Seq::empty()),
            QuotaError::FileReadError(m) => coded(500, "internal_error"@, m@),
            QuotaError::FileWriteError(m) => coded(500, "internal_error"@, m@),
            QuotaError::InvalidTier(m) => coded(400, "invalid_quota_tier"@, m@),
        },
        AppError::Upstream(u) => match u {
            UpstreamError::Timeout => coded(504, "upstream_timeout"@, "上游服务响应超时，请等待 5-10 秒后重试"@),
            UpstreamError::ApiError { status, message } => coded(
                502,
                "upstream_api_error"@,
                "上游服务返回错误 (状态码 "@ + decimal_of(status as nat) + "): "@ + message@,
            ),
            UpstreamError::NetworkError(m) => coded(502, "upstream_network_error"@, "上游服务网络错误: "@ + m@),
            UpstreamError::InvalidResponse(m) => coded(502, "upstream_invalid_response"@, "上游服务响应格式错误: "@ + m@),
        },
        AppError::System(s) => match s {
            SystemError::Internal(m) => coded(500, "internal_error"@, m@),
            SystemError::Configuration(m) => coded(500, "configuration_error"@, m@),
            SystemError::FileIo(m) => coded(500, "file_io_error"@, m@),
            SystemError::Serialization(m) => coded(400, "serialization_error"@, m@),
            SystemError::Database(m) => coded(500, "database_error"@, m@),
        },
        AppError::Unauthorized(m) => coded(401, "unauthorized"@, m@),
        AppError::BadRequest(m) => coded(400, "bad_request"@, m@),
        AppError::NotFound(m) => coded(404, "not_found"@, m@),
        AppError::PaymentRequired { .. } => coded(402, Seq::empty(), Seq::empty()),
        AppError::QueueTimeout => coded(408, "queue_timeout"@, "请求排队超时，请等待 2-3 秒后重试"@),
        AppError::TooManyRequests => coded(429, "too_many_requests"@, "服务繁忙，请等待 3-5 秒后重试"@),
        AppError::GatewayTimeout => coded(504, "gateway_timeout"@, "上游服务响应超时，请等待 5-10 秒后重试"@),
        AppError::GlmError(m) => coded(502, "glm_error"@, m@),
        AppError::InternalError(m) => coded(500, "internal_error"@, m@),
    }
}

/// Whether `e` is answered with the quota-exceeded body.
pub open spec fn is_quota_exceeded(e: AppError) -> bool {
    e matches AppError::Quota(QuotaError::Exceeded { .. }) || e matches AppError::PaymentRequired { .. }
}

fn coded_response(status: u16, code: &str, message: String) -> (r: ErrorResponse)
    ensures
        r.status == status,
        r.body matches ErrorBody::Coded { code: c, message: m } && c@ == code@ && m@ == message@,
{
    ErrorResponse { status, body: ErrorBody::Coded { code: String::from_str(code), message } }
}

impl AppError {
    /// The HTTP answer to this error: its status, and either a coded body
    /// or, for an exhausted quota, the usage and the reset time.
    pub fn into_response_parts(self) -> (r: ErrorResponse)
        ensures
            r.status == answer_of(self).0,
            is_quota_exceeded(self) <==> r.body is QuotaExceeded,
            r.body matches ErrorBody::Coded { code, message } ==> code@ == answer_of(self).1
                && message@ == answer_of(self).2,
            self matches AppError::PaymentRequired { used, limit, reset_at } ==> (r.body matches
                ErrorBody::QuotaExceeded { used: u, limit: l, reset_at: t } && u == used && l == limit
                && t@ == reset_at@),
            self matches AppError::Quota(QuotaError::Exceeded { used, limit, reset_at }) ==> (r.body matches
                ErrorBody::QuotaExceeded { used: u, limit: l, reset_at: t } && u == used && l == limit
                && t@ == reset_at@),
    {
        match self {
            AppError::Auth(a) => match a {
                AuthError::Unauthorized(m) => coded_response(401, "unauthorized", m),
                AuthError::TokenExpired => coded_response(401, "token_expired", String::from_str("Token 已过期，请重新登录")),
                AuthError::InvalidToken => coded_response(401, "invalid_token", String::from_str("Token 无效")),
                AuthError::UserNotFound => coded_response(401, "user_not_found", String::from_str("用户不存在")),
                AuthError::AccountDisabled => coded_response(403, "account_disabled", String::from_str("账户已被停用")),
                AuthError::InvalidCredentials => coded_response(401, "invalid_credentials", String::from_str("用户名或密码错误")),
            },
            AppError::Quota(q) => match q {
                QuotaError::Exceeded { used, limit, reset_at } => ErrorResponse {
                    status: 402,
                    body: ErrorBody::QuotaExceeded { used, limit, reset_at },
                },
                QuotaError::FileReadError(m) => coded_response(500, "internal_error", m),
                QuotaError::FileWriteError(m) => coded_response(500, "internal_error", m),
                QuotaError::InvalidTier(m) => coded_response(400, "invalid_quota_tier", m),
            },
            AppError::Upstream(u) => match u {
                UpstreamError::Timeout => coded_response(504, "upstream_timeout", String::from_str("上游服务响应超时，请等待 5-10 秒后重试")),
                UpstreamError::ApiError { status, message } => {
                    let text = String::from_str("上游服务返回错误 (状态码 ")
                        .concat(decimal_string(status as u64).as_str())
                        .concat("): ")
                        .concat(message.as_str());
                    coded_response(502, "upstream_api_error", text)
                },
                UpstreamError::NetworkError(m) => coded_response(502, "upstream_network_error", join2("上游服务网络错误: ", m.as_str())),
                UpstreamError::InvalidResponse(m) => coded_response(502, "upstream_invalid_response", join2("上游服务响应格式错误: ", m.as_str())),
            },
            AppError::System(s) => match s {
                SystemError::Internal(m) => coded_response(500, "internal_error", m),
                SystemError::Configuration(m) => coded_response(500, "configuration_error", m),
                SystemError::FileIo(m) => coded_response(500, "file_io_error", m),
                SystemError::Serialization(m) => coded_response(400, "serialization_error", m),
                SystemError::Database(m) => coded_response(500, "database_error", m),
            },
            AppError::Unauthorized(m) => coded_response(401, "unauthorized", m),
            AppError::BadRequest(m) => coded_response(400, "bad_request", m),
            AppError::NotFound(m) => coded_response(404, "not_found", m),
            AppError::PaymentRequired { used, limit, reset_at } => ErrorResponse {
                status: 402,
                body: ErrorBody::QuotaExceeded { used, limit, reset_at },
            },
            AppError::QueueTimeout => coded_response(408, "queue_timeout", String::from_str("请求排队超时，请等待 2-3 秒后重试")),
            AppError::TooManyRequests => coded_response(429, "too_many_requests", String::from_str("服务繁忙，请等待 3-5 秒后重试")),
            AppError::GatewayTimeout => coded_response(504, "gateway_timeout", String::from_str("上游服务响应超时，请等待 5-10 秒后重试")),
            AppError::GlmError(m) => coded_response(502, "glm_error", m),
            AppError::InternalError(m) => coded_response(500, "internal_error", m),
        }
    }

    pub fn user_not_found() -> (r: Self)
        ensures
            r == AppError::Auth(AuthError::UserNotFound),
    {
        AppError::Auth(AuthError::UserNotFound)
    }

    pub fn account_disabled() -> (r: Self)
        ensures
            r == AppError::Auth(AuthError::AccountDisabled),
    {
        AppError::Auth(AuthError::AccountDisabled)
    }

    pub fn invalid_credentials() -> (r: Self)
        ensures
            r == AppError::Auth(AuthError::InvalidCredentials),
    {
        AppError::Auth(AuthError::InvalidCredentials)
    }

    pub fn token_expired() -> (r: Self)
        ensures
            r == AppError::Auth(AuthError::TokenExpired),
    {
        AppError::Auth(AuthError::TokenExpired)
    }

    pub fn quota_exceeded(used: u32, limit: u32, reset_at: String) -> (r: Self)
        ensures
            r == AppError::Quota(QuotaError::Exceeded { used, limit, reset_at }),
    {
        AppError::Quota(QuotaError::Exceeded { used, limit, reset_at })
    }

    pub fn upstream_api_error(status: u16, message: String) -> (r: Self)
        ensures
            r == AppError::Upstream(UpstreamError::ApiError { status, message }),
    {
        AppError::Upstream(UpstreamError::ApiError { status, message })
    }

    pub fn upstream_timeout() -> (r: Self)
        ensures
            r == AppError::Upstream(UpstreamError::Timeout),
    {
        AppError::Upstream(UpstreamError::Timeout)
    }

    pub fn configuration_error(msg: String) -> (r: Self)
        ensures
            r == AppError::System(SystemError::Configuration(msg)),
    {
        AppError::System(SystemError::Configuration(msg))
    }

    /// An internal error reading `context: err`, where `err` is the text of
    /// the underlying failure.
    pub fn internal_with_context(context: &str, err: &str) -> (r: Self)
        ensures
            r matches AppError::System(SystemError::Internal(m)) && m@ == context@ + ": "@ + err@,
    {
        AppError::System(SystemError::Internal(String::from_str(context).concat(": ").concat(err)))
    }

    /// An internal error reading `[code] message`, so that logs can be
    /// searched by code.
    pub fn internal_with_code(code: &str, message: &str) -> (r: Self)
        ensures
            r matches AppError::System(SystemError::Internal(m)) && m@ == "["@ + code@ + "] "@ + message@,
    {
        AppError::System(SystemError::Internal(String::from_str("[").concat(code).concat("] ").concat(message)))
    }

    /// An internal error listing the chain of causes of an `anyhow` error
    /// under `context`.
    pub fn from_anyhow_with_context(context: &str, err: anyhow::Error) -> (r: Self)
        ensures
            r matches AppError::System(SystemError::Internal(m))
                && exists|chain: Seq<Seq<char>>| m@ == context@ + ":\n"@ + #[trigger] chain_text(chain, 0),
    {
        let chain = error_chain(&err);
        AppError::internal_from_chain(context, &chain)
    }

    /// An internal error reading `context:` and then one line per cause of
    /// the failure, `  [i] cause`.
    pub fn internal_from_chain(context: &str, chain: &Vec<String>) -> (r: Self)
        ensures
            r matches AppError::System(SystemError::Internal(m))
                && m@ == context@ + ":\n"@ + chain_text(chain@.map_values(|s: String| s@), 0),
    {
        let text = String::from_str(context).concat(":\n").concat(chain_lines(chain).as_str());
        AppError::System(SystemError::Internal(text))
    }

    /// The error an I/O failure of kind `kind` and text `detail` stands for.
    pub fn from_io_error(kind: IoErrorKind, detail: &str) -> (r: Self)
        ensures
            kind == IoErrorKind::NotFound ==> (r matches AppError::NotFound(m) && m@ == "文件或资源不存在: "@ + detail@),
            kind == IoErrorKind::PermissionDenied ==> (r matches AppError::System(SystemError::FileIo(m))
                && m@ == "权限不足: "@ + detail@),
            kind == IoErrorKind::TimedOut ==> r matches AppError::GatewayTimeout,
            kind == IoErrorKind::Other ==> (r matches AppError::System(SystemError::FileIo(m))
                && m@ == "IO 错误: "@ + detail@),
    {
        match kind {
            IoErrorKind::NotFound => AppError::NotFound(join2("文件或资源不存在: ", detail)),
            IoErrorKind::PermissionDenied => AppError::System(SystemError::FileIo(join2("权限不足: ", detail))),
            IoErrorKind::TimedOut => AppError::GatewayTimeout,
            IoErrorKind::Other => AppError::System(SystemError::FileIo(join2("IO 错误: ", detail))),
        }
    }

    /// The error a JSON failure at `line`, `column` with text `detail`
    /// stands for.
    pub fn from_json_error(line: u64, column: u64, detail: &str) -> (r: Self)
        ensures
            r matches AppError::System(SystemError::Serialization(m)) && m@ == "JSON 格式错误 (行 "@
                + decimal_of(line as nat) + ", 列 "@ + decimal_of(column as nat) + "): "@ + detail@,
    {
        let text = String::from_str("JSON 格式错误 (行 ")
            .concat(decimal_string(line).as_str())
            .concat(", 列 ")
            .concat(decimal_string(column).as_str())
            .concat("): ")
            .concat(detail);
        AppError::System(SystemError::Serialization(text))
    }
}

/// The lines `  [i] cause` for the causes from index `i` on, joined by
/// line breaks.
pub open spec fn chain_text(chain: Seq<Seq<char>>, i: nat) -> Seq<char>
    decreases chain.len() - i,
{
    if i >= chain.len() {
        Seq::empty()
    } else {
        let line = "  ["@ + decimal_of(i) + "] "@ + chain[i as int];
        if i + 1 == chain.len() {
            line
        } else {
            line + "\n"@ + chain_text(chain, i + 1)
        }
    }
}

/// The lines `[i] cause` of a chain of causes, as `chain_text` gives them.
fn chain_lines(chain: &Vec<String>) -> (r: String)
    ensures
        r@ == chain_text(chain@.map_values(|s: String| s@), 0),
{
    let ghost c = chain@.map_values(|s: String| s@);
    let mut out = String::new();
    let mut k: usize = chain.len();
    // built from the last cause backwards, so each step prepends one line
    while k > 0
        invariant
            k <= chain.len(),
            c == chain@.map_values(|s: String| s@),
            out@ == chain_text(c, k as nat),
        decreases k,
    {
        k = k - 1;
        let line = String::from_str("  [")
            .concat(decimal_string(k as u64).as_str())
            .concat("] ")
            .concat(chain[k].as_str());
        if k + 1 == chain.len() {
            out = line;
        } else {
            out = line.concat("\n").concat(out.as_str());
        }
    }
    out
}

/// Relies on anyhow's `Error::chain`: the error and its causes, outermost
/// first, each written with its `Display`. Nothing is known of the text.
#[verifier::external_body]
fn error_chain(err: &anyhow::Error) -> (r: Vec<String>) {
    err.chain().map(|e| e.to_string()).collect()
}

#[verifier::external_type_specification]
#[verifier::external_body]
pub struct ExAnyhowError(anyhow::Error);

} // verus!
