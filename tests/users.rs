use deepseek_proxy::admin::{self, CreateUserRequest, SetUserActiveRequest};
use deepseek_proxy::config::User;
use deepseek_proxy::error::AppError;
use deepseek_proxy::user_manager::UserManager;

fn user(name: &str, pw: &str) -> User {
    User {
        username: name.to_string(),
        password: pw.to_string(),
        quota_tier: "basic".to_string(),
        is_active: true,
        created_at: None,
        updated_at: None,
    }
}

#[test]
fn usernames_follow_the_rules() {
    assert!(UserManager::validate_username("alice").is_ok());
    assert!(UserManager::validate_username("a_b-c9").is_ok());
    assert!(UserManager::validate_username("abc").is_ok());
    assert!(UserManager::validate_username(&"a".repeat(32)).is_ok());
    for bad in ["ab", "_abc", "-abc", "a.b.c", "../etc", "a/bc", "a\\bc", "ab\0c", "用户名字", "a b c"] {
        assert!(matches!(UserManager::validate_username(bad), Err(AppError::BadRequest(_))), "{}", bad);
    }
    assert!(UserManager::validate_username(&"a".repeat(33)).is_err());
}

#[test]
fn create_checks_name_and_uniqueness() {
    let mut users = UserManager::new();
    let (resp, rec) = admin::create_user(&mut users, CreateUserRequest {
        username: "alice".to_string(),
        password: "pw".to_string(),
        quota_tier: admin::default_quota_tier(),
    })
    .unwrap();
    assert_eq!(resp.message, "用户 alice 已创建");
    assert!(rec.is_active);
    assert_eq!(rec.quota_tier, "basic");
    assert!(rec.created_at.is_some());
    assert_eq!(rec.created_at, rec.updated_at);
    let again = users.create_user("alice".to_string(), "x".to_string(), "pro".to_string());
    assert!(matches!(again, Err(AppError::InternalError(_))));
    let bad = users.create_user("a/b".to_string(), "x".to_string(), "pro".to_string());
    assert!(matches!(bad, Err(AppError::BadRequest(_))));
    assert_eq!(users.list_users().len(), 1);
}

#[test]
fn lookups_and_credentials() {
    let mut users = UserManager::new();
    users.save_user(user("alice", "pw1"));
    users.save_user(user("bob", "pw2"));
    assert!(users.find_user("alice", "pw1").is_some());
    assert!(users.find_user("alice", "pw2").is_none());
    assert!(users.find_user("carol", "pw1").is_none());
    assert_eq!(users.get_user("bob").unwrap().password, "pw2");
    users.save_user(user("bob", "pw3"));
    assert_eq!(users.list_users().len(), 2);
    assert!(users.find_user("bob", "pw3").is_some());
    let listed = admin::list_users(&users);
    assert_eq!(listed.users[0].username, "alice");
    assert!(matches!(admin::get_user(&users, "zed"), Err(AppError::NotFound(_))));
    assert_eq!(admin::get_user(&users, "bob").unwrap().quota_tier, "basic");
}

#[test]
fn deactivating_twice_changes_only_the_update_time() {
    let mut users = UserManager::new();
    users.save_user(user("alice", "pw"));
    let req = SetUserActiveRequest { is_active: false };
    let (resp, once) = admin::set_user_active(&mut users, "alice", &req).unwrap();
    assert_eq!(resp.message, "用户 alice 已停用");
    let (_, twice) = admin::set_user_active(&mut users, "alice", &req).unwrap();
    assert_eq!(
        (once.username.clone(), once.password.clone(), once.quota_tier.clone(), once.is_active, once.created_at.clone()),
        (twice.username.clone(), twice.password.clone(), twice.quota_tier.clone(), twice.is_active, twice.created_at.clone())
    );
    assert!(!twice.is_active);
    assert!(twice.updated_at.is_some());
    assert!(matches!(users.set_user_active("nobody", true), Err(AppError::NotFound(_))));
}

#[test]
fn startup_imports_configured_users_only_into_an_empty_store() {
    let (m, to_write) = UserManager::from_records(vec![], vec![user("a1x", "p"), user("b2y", "q")]);
    assert_eq!(to_write.len(), 2);
    assert!(m.get_user("b2y").is_some());
    let (m, to_write) = UserManager::from_records(vec![user("c3z", "r")], vec![user("a1x", "p")]);
    assert!(to_write.is_empty());
    assert!(m.get_user("a1x").is_none());
    assert!(m.get_user("c3z").is_some());
}
