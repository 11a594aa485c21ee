use deepseek_proxy::user_activity::sanitize_username;

#[test]
fn test_sanitize_username() {
    assert_eq!(sanitize_username("admin"), "admin");
    assert_eq!(sanitize_username("user-123"), "user-123");
    assert_eq!(sanitize_username("user_test"), "user_test");
    assert_eq!(sanitize_username("../etc/passwd"), "___etc_passwd");
    assert_eq!(sanitize_username("user@example.com"), "user_example_com");
}

#[test]
fn sanitize_keeps_unicode_letters_and_replaces_separators() {
    assert_eq!(sanitize_username("张三/李四"), "张三_李四");
    assert_eq!(sanitize_username(""), "");
    assert_eq!(sanitize_username("a\\b\0c"), "a_b_c");
}
