//! Bearer tokens: HS256-signed JWTs whose claims are the username (`sub`)
//! and the expiry in Unix seconds (`exp`).

use crate::error::AppError;
use crate::text::join2;
use vstd::prelude::*;

verus! {

/// The longest token lifetime, in seconds.
pub const MAX_TTL_SECONDS: u64 = 60;

/// The claims a token carries.
#[derive(Debug, Clone)]
pub struct Claims {
    pub sub: String,
    pub exp: usize,
}

/// Issues and checks bearer tokens.
pub struct JwtService {
    secret: String,
    ttl_seconds: i64,
}

#[verifier::external_type_specification]
#[verifier::external_body]
pub struct ExJwtError(jsonwebtoken::errors::Error);

/// The HS256 JWT of the claims `{"exp": exp, "sub": sub}` under `secret`,
/// with the header `{"typ": "JWT", "alg": "HS256"}`.
pub uninterp spec fn hs256_token_of(sub: Seq<char>, exp: int, secret: Seq<char>) -> Seq<char>;

/// Relies on jsonwebtoken's `encode` with `Header::new(Algorithm::HS256)` and
/// `EncodingKey::from_secret`: the claims go in as a JSON object of the two
/// fields; the token depends on the arguments alone. It succeeds: the key
/// is of the HMAC family the header names, HMAC signing does not fail, and
/// the header and a string-keyed map always serialise.
#[verifier::external_body]
fn encode_hs256(sub: &str, exp: u64, secret: &str) -> (r: Result<String, jsonwebtoken::errors::Error>)
    ensures
        r is Ok,
        r matches Ok(t) ==> t@ == hs256_token_of(sub@, exp as int, secret@),
{
    let mut claims = serde_json::Map::new();
    claims.insert("sub".to_string(), serde_json::Value::from(sub));
    claims.insert("exp".to_string(), serde_json::Value::from(exp));
    jsonwebtoken::encode(
        &jsonwebtoken::Header::new(jsonwebtoken::Algorithm::HS256),
        &claims,
        &jsonwebtoken::EncodingKey::from_secret(secret.as_bytes()),
    )
}

/// Relies on jsonwebtoken's `decode` with `Validation::new(Algorithm::HS256)`
/// and `DecodingKey::from_secret`: `Ok` only for a token signed with
/// `secret` whose `exp` has not passed on the machine's clock; then the
/// `sub` and `exp` claims where they are a string and an unsigned integer.
#[verifier::external_body]
fn decode_hs256(token: &str, secret: &str) -> (r: Result<(Option<String>, Option<u64>), jsonwebtoken::errors::Error>) {
    let data = jsonwebtoken::decode::<serde_json::Map<String, serde_json::Value>>(
        token,
        &jsonwebtoken::DecodingKey::from_secret(secret.as_bytes()),
        &jsonwebtoken::Validation::new(jsonwebtoken::Algorithm::HS256),
    )?;
    let sub = data.claims.get("sub").and_then(|v| v.as_str()).map(|s| s.to_string());
    let exp = data.claims.get("exp").and_then(|v| v.as_u64());
    Ok((sub, exp))
}

/// Relies on the `Display` of jsonwebtoken's error: its text. Nothing is
/// known of it.
#[verifier::external_body]
fn jwt_error_text(e: &jsonwebtoken::errors::Error) -> (r: String) {
    e.to_string()
}

impl JwtService {
    pub closed spec fn ttl(&self) -> int {
        self.ttl_seconds as int
    }

    /// The lifetime lies between one second and the longest allowed.
    pub closed spec fn wf(&self) -> bool {
        0 < self.ttl_seconds <= MAX_TTL_SECONDS
    }

    pub closed spec fn secret(&self) -> Seq<char> {
        self.secret@
    }

    /// A service signing with `secret`; tokens live `min(ttl_seconds, 60)`
    /// seconds. Fails where `ttl_seconds` is zero or beyond `i64::MAX`.
    pub fn new(secret: String, ttl_seconds: u64) -> (r: Result<Self, String>)
        ensures
            r is Ok <==> (0 < ttl_seconds <= i64::MAX),
            r matches Ok(s) ==> s.wf() && s.secret() == secret@ && s.ttl() == (if ttl_seconds < MAX_TTL_SECONDS {
                ttl_seconds
            } else {
                MAX_TTL_SECONDS
            }),
    {
        if ttl_seconds > i64::MAX as u64 {
            return Err(String::from_str("TTL时间溢出：超过i64最大值"));
        }
        if ttl_seconds == 0 {
            return Err(String::from_str("TTL时间必须大于0"));
        }
        let ttl = if ttl_seconds < MAX_TTL_SECONDS { ttl_seconds } else { MAX_TTL_SECONDS };
        Ok(JwtService { secret, ttl_seconds: ttl as i64 })
    }

    /// The token of `username` issued at `now` (Unix seconds): it expires
    /// `ttl` seconds later.
    pub fn generate_token(&self, username: &str, now: i64) -> (r: Result<String, AppError>)
        requires
            self.wf(),
        ensures
            now + self.ttl() < 0 ==> r is Err,
            0 <= now + self.ttl() <= i64::MAX && now + self.ttl() <= usize::MAX ==> r is Ok,
            r matches Ok(t) ==> t@ == hs256_token_of(username@, now + self.ttl(), self.secret()),
    {
        if now > i64::MAX - self.ttl_seconds {
            return Err(AppError::InternalError(String::from_str("Token生成失败: 时间计算溢出")));
        }
        let exp = now + self.ttl_seconds;
        if exp < 0 || (exp as u64) as u128 > usize::MAX as u128 {
            return Err(AppError::InternalError(String::from_str("Token生成失败: 过期时间转换失败")));
        }
        match encode_hs256(username, exp as u64, self.secret.as_str()) {
            Ok(t) => Ok(t),
            Err(e) => Err(AppError::InternalError(join2("Token生成失败: ", jwt_error_text(&e).as_str()))),
        }
    }

    /// The claims of `token`, where it is signed with this service's secret,
    /// unexpired, and carries both claims; else `Unauthorized`.
    pub fn validate_token(&self, token: &str) -> (r: Result<Claims, AppError>)
        ensures
            r matches Err(e) ==> e is Unauthorized,
    {
        match decode_hs256(token, self.secret.as_str()) {
            Ok((sub, exp)) => claims_from(sub, exp),
            Err(e) => Err(AppError::Unauthorized(join2("Token 无效: ", jwt_error_text(&e).as_str()))),
        }
    }

    /// The lifetime of a token, in seconds; what a login answers as
    /// `expires_in`.
    pub fn get_ttl_seconds(&self) -> (r: u64)
        requires
            self.wf(),
        ensures
            r == self.ttl(),
    {
        self.ttl_seconds as u64
    }
}

/// The claims of a verified token from its decoded `sub` and `exp`: both
/// must be there, and `exp` must fit in `usize`; else `Unauthorized`.
pub fn claims_from(sub: Option<String>, exp: Option<u64>) -> (r: Result<Claims, AppError>)
    ensures
        r is Ok <==> (sub is Some && exp is Some && exp.unwrap() <= usize::MAX),
        r matches Ok(c) ==> c.sub@ == sub.unwrap()@ && c.exp == exp.unwrap(),
        r matches Err(e) ==> e is Unauthorized,
{
    match (sub, exp) {
        (Some(sub), Some(exp)) => {
            if exp as u128 > usize::MAX as u128 {
                return Err(AppError::Unauthorized(String::from_str("Token 无效: exp")));
            }
            Ok(Claims { sub, exp: exp as usize })
        },
        _ => Err(AppError::Unauthorized(String::from_str("Token 无效: 缺少声明"))),
    }
}

} // verus!
