use inappropriate_video_handler::config::{
    BackgroundConfig, BrowserConfig, Config, FileConfig, MonitoringConfig, TimeoutConfig,
};

#[test]
fn test_config_default() {
    let config = Config::default();

    assert_eq!(config.browser.executable, "firefox");
    assert_eq!(config.browser.url, "https://www.google.com");
    assert_eq!(config.browser.process_name, "firefox");
    assert_eq!(config.monitoring.check_frequency_seconds, 60);
    assert_eq!(config.timeouts.blacklist_timeout_minutes, 10);
    assert_eq!(config.timeouts.bathroom_break_minutes, 10);
    assert_eq!(config.timeouts.bathroom_break_interval_hours, 3);
    assert_eq!(config.backgrounds.normal, "/home/user/backgrounds/normal.jpg");
    assert_eq!(config.backgrounds.blocked, "/home/user/backgrounds/blocked.jpg");
    assert_eq!(config.backgrounds.bathroom_break, "/home/user/backgrounds/bathroom.jpg");
    assert_eq!(config.files.blacklist, "blacklist.txt");
    assert_eq!(config.files.whitelist, "whitelist.txt");
    assert_eq!(config.files.state_file, "/tmp/ivh_state.json");
}

#[test]
fn test_browser_config_fields() {
    let config = BrowserConfig {
        executable: "test_browser".to_string(),
        url: "https://test.com".to_string(),
        process_name: "test_process".to_string(),
    };

    assert_eq!(config.executable, "test_browser");
    assert_eq!(config.url, "https://test.com");
    assert_eq!(config.process_name, "test_process");
}

#[test]
fn test_monitoring_config_fields() {
    let config = MonitoringConfig { check_frequency_seconds: 120 };

    assert_eq!(config.check_frequency_seconds, 120);
}

#[test]
fn test_timeout_config_fields() {
    let config = TimeoutConfig {
        blacklist_timeout_minutes: 20,
        bathroom_break_minutes: 15,
        bathroom_break_interval_hours: 4,
    };

    assert_eq!(config.blacklist_timeout_minutes, 20);
    assert_eq!(config.bathroom_break_minutes, 15);
    assert_eq!(config.bathroom_break_interval_hours, 4);
}

#[test]
fn test_background_config_fields() {
    let config = BackgroundConfig {
        normal: "/path/normal.jpg".to_string(),
        blocked: "/path/blocked.jpg".to_string(),
        bathroom_break: "/path/break.jpg".to_string(),
    };

    assert_eq!(config.normal, "/path/normal.jpg");
    assert_eq!(config.blocked, "/path/blocked.jpg");
    assert_eq!(config.bathroom_break, "/path/break.jpg");
}

#[test]
fn test_file_config_fields() {
    let config = FileConfig {
        blacklist: "test_blacklist.txt".to_string(),
        whitelist: "test_whitelist.txt".to_string(),
        state_file: "/test/state.json".to_string(),
    };

    assert_eq!(config.blacklist, "test_blacklist.txt");
    assert_eq!(config.whitelist, "test_whitelist.txt");
    assert_eq!(config.state_file, "/test/state.json");
}
