use deepseek_proxy::logger::LoggerConfig;

#[test]
fn test_default_config() {
    let config = LoggerConfig::default();
    assert_eq!(config.log_dir, "logs");
    assert_eq!(config.file_prefix, "deepseek_proxy");
    assert_eq!(config.max_file_size, 10 * 1024 * 1024);
    assert_eq!(config.max_files, 5);
}
