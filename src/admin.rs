//! The administration surface over the user store: list, read, create and
//! (de)activate users. Accounts are never deleted. Every change returns the
//! record the caller must write to the user's file.

use crate::config::{User, UserView};
use crate::error::AppError;
use crate::text::join2;
use crate::user_manager::{is_activation_of, valid_username, UserInfo, UserManager};
use vstd::prelude::*;

verus! {

#[derive(Debug)]
pub struct SetUserActiveRequest {
    pub is_active: bool,
}

#[derive(Debug)]
pub struct SetUserActiveResponse {
    pub username: String,
    pub is_active: bool,
    pub message: String,
}

#[derive(Debug)]
pub struct GetUserResponse {
    pub username: String,
    pub quota_tier: String,
    pub is_active: bool,
}

#[derive(Debug)]
pub struct ListUsersResponse {
    pub users: Vec<UserInfo>,
}

#[derive(Debug)]
pub struct CreateUserRequest {
    pub username: String,
    pub password: String,
    pub quota_tier: String,
}

#[derive(Debug)]
pub struct CreateUserResponse {
    pub username: String,
    pub message: String,
}

/// The tier of a created user whose request names none.
pub fn default_quota_tier() -> (r: String)
    ensures
        r@ == "basic"@,
{
    String::from_str("basic")
}

/// Sets the active flag of `username`; answers with the new flag and a
/// message, and hands back the record to write.
pub fn set_user_active(users: &mut UserManager, username: &str, req: &SetUserActiveRequest) -> (r: Result<(SetUserActiveResponse, User), AppError>)
    requires
        old(users).wf(),
    ensures
        final(users).wf(),
        old(users).lookup(username@) is None ==> r matches Err(AppError::NotFound(_)),
        old(users).lookup(username@) matches Some(u) ==> (r matches Ok((resp, rec)) && resp.username@ == username@
            && resp.is_active == req.is_active && is_activation_of(rec@, u, req.is_active)
            && resp.message@ == "用户 "@ + username@ + (if req.is_active { " 已启用"@ } else { " 已停用"@ })
            && final(users).lookup(username@) == Some(rec@)),
{
    let rec = match users.set_user_active(username, req.is_active) {
        Ok(rec) => rec,
        Err(e) => return Err(e),
    };
    let message = if req.is_active {
        join2("用户 ", username).concat(" 已启用")
    } else {
        join2("用户 ", username).concat(" 已停用")
    };
    Ok((SetUserActiveResponse { username: String::from_str(username), is_active: req.is_active, message }, rec))
}

/// The record of `username`, without its password.
pub fn get_user(users: &UserManager, username: &str) -> (r: Result<GetUserResponse, AppError>)
    requires
        users.wf(),
    ensures
        users.lookup(username@) is None ==> r matches Err(AppError::NotFound(_)),
        users.lookup(username@) matches Some(u) ==> (r matches Ok(resp) && resp.username@ == u.username
            && resp.quota_tier@ == u.quota_tier && resp.is_active == u.is_active),
{
    match users.get_user(username) {
        Some(u) => Ok(GetUserResponse { username: u.username, quota_tier: u.quota_tier, is_active: u.is_active }),
        None => Err(AppError::NotFound(join2("用户 ", username).concat(" 不存在"))),
    }
}

/// Every user, without passwords.
pub fn list_users(users: &UserManager) -> (r: ListUsersResponse)
    ensures
        r.users@.len() == users@.len(),
        forall|i: int| 0 <= i < r.users@.len() ==> (#[trigger] r.users@[i]).username@ == users@[i].username
            && r.users@[i].quota_tier@ == users@[i].quota_tier && r.users@[i].is_active == users@[i].is_active,
{
    ListUsersResponse { users: users.list_users() }
}

/// Creates the user `req` describes; answers with its name and a message,
/// and hands back the record to write.
pub fn create_user(users: &mut UserManager, req: CreateUserRequest) -> (r: Result<(CreateUserResponse, User), AppError>)
    requires
        old(users).wf(),
    ensures
        final(users).wf(),
        !valid_username(req.username@) ==> r matches Err(AppError::BadRequest(_)),
        valid_username(req.username@) && old(users).lookup(req.username@) is Some ==> r matches Err(AppError::InternalError(_)),
        valid_username(req.username@) && old(users).lookup(req.username@) is None ==> (r matches Ok((resp, rec))
            && resp.username@ == req.username@ && resp.message@ == "用户 "@ + req.username@ + " 已创建"@
            && rec@.username == req.username@ && rec@.password == req.password@ && rec@.quota_tier == req.quota_tier@
            && rec@.is_active && final(users).lookup(req.username@) == Some(rec@)),
{
    let name = req.username.clone();
    let rec = match users.create_user(req.username, req.password, req.quota_tier) {
        Ok(rec) => rec,
        Err(e) => return Err(e),
    };
    let message = join2("用户 ", name.as_str()).concat(" 已创建");
    Ok((CreateUserResponse { username: name, message }, rec))
}

} // verus!
