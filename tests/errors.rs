use deepseek_proxy::error::{AppError, ErrorBody, IoErrorKind, SystemError};

fn coded(e: AppError) -> (u16, String, String) {
    let r = e.into_response_parts();
    match r.body {
        ErrorBody::Coded { code, message } => (r.status, code, message),
        ErrorBody::QuotaExceeded { .. } => panic!("unexpected quota body"),
    }
}

#[test]
fn each_kind_maps_to_its_status_and_code() {
    assert_eq!(coded(AppError::TooManyRequests).0, 429);
    assert_eq!(coded(AppError::TooManyRequests).1, "too_many_requests");
    assert_eq!(coded(AppError::token_expired()), (401, "token_expired".to_string(), "Token 已过期，请重新登录".to_string()));
    assert_eq!(coded(AppError::account_disabled()).0, 403);
    assert_eq!(coded(AppError::user_not_found()).1, "user_not_found");
    assert_eq!(coded(AppError::invalid_credentials()).1, "invalid_credentials");
    assert_eq!(coded(AppError::BadRequest("x".to_string())), (400, "bad_request".to_string(), "x".to_string()));
    assert_eq!(coded(AppError::NotFound("y".to_string())).0, 404);
    assert_eq!(coded(AppError::QueueTimeout).0, 408);
    assert_eq!(coded(AppError::GatewayTimeout).0, 504);
    assert_eq!(coded(AppError::upstream_timeout()).0, 504);
    assert_eq!(coded(AppError::InternalError("z".to_string())), (500, "internal_error".to_string(), "z".to_string()));
    assert_eq!(coded(AppError::configuration_error("c".to_string())).1, "configuration_error");
    let (status, code, _) = coded(AppError::Quota(deepseek_proxy::error::QuotaError::FileReadError("r".to_string())));
    assert_eq!((status, code.as_str()), (500, "internal_error"));
}

#[test]
fn upstream_failure_is_a_bad_gateway_echoing_the_status() {
    let (status, code, message) = coded(AppError::upstream_api_error(500, "boom".to_string()));
    assert_eq!(status, 502);
    assert_eq!(code, "upstream_api_error");
    assert_eq!(message, "上游服务返回错误 (状态码 500): boom");
}

#[test]
fn quota_exhaustion_answers_payment_required_with_details() {
    let r = AppError::PaymentRequired { used: 500, limit: 500, reset_at: "2025-03-01T00:00:00+08:00".to_string() }
        .into_response_parts();
    assert_eq!(r.status, 402);
    match r.body {
        ErrorBody::QuotaExceeded { used, limit, reset_at } => {
            assert_eq!((used, limit), (500, 500));
            assert_eq!(reset_at, "2025-03-01T00:00:00+08:00");
        }
        _ => panic!("expected the quota body"),
    }
    let r = AppError::quota_exceeded(3, 3, "t".to_string()).into_response_parts();
    assert_eq!(r.status, 402);
}

#[test]
fn context_and_code_helpers_compose_messages() {
    match AppError::internal_with_context("配额保存失败", "disk full") {
        AppError::System(SystemError::Internal(m)) => assert_eq!(m, "配额保存失败: disk full"),
        other => panic!("{:?}", other),
    }
    match AppError::internal_with_code("CFG001", "配置文件加载失败") {
        AppError::System(SystemError::Internal(m)) => assert_eq!(m, "[CFG001] 配置文件加载失败"),
        other => panic!("{:?}", other),
    }
    let chain = vec!["outer".to_string(), "inner".to_string()];
    match AppError::internal_from_chain("用户文件加载失败", &chain) {
        AppError::System(SystemError::Internal(m)) => assert_eq!(m, "用户文件加载失败:\n  [0] outer\n  [1] inner"),
        other => panic!("{:?}", other),
    }
    let err = anyhow::Error::msg("root cause").context("while loading");
    match AppError::from_anyhow_with_context("ctx", err) {
        AppError::System(SystemError::Internal(m)) => assert_eq!(m, "ctx:\n  [0] while loading\n  [1] root cause"),
        other => panic!("{:?}", other),
    }
}

#[test]
fn io_and_json_failures_map_to_their_kinds() {
    assert!(matches!(AppError::from_io_error(IoErrorKind::TimedOut, "t"), AppError::GatewayTimeout));
    match AppError::from_io_error(IoErrorKind::NotFound, "a.json") {
        AppError::NotFound(m) => assert_eq!(m, "文件或资源不存在: a.json"),
        other => panic!("{:?}", other),
    }
    match AppError::from_json_error(3, 14, "bad") {
        AppError::System(SystemError::Serialization(m)) => assert_eq!(m, "JSON 格式错误 (行 3, 列 14): bad"),
        other => panic!("{:?}", other),
    }
    let (status, code, _) = coded(AppError::from_json_error(1, 1, "x"));
    assert_eq!((status, code.as_str()), (400, "serialization_error"));
}
