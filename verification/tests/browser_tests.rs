use inappropriate_video_handler::browser::{parse_pid_output, BrowserManager};

#[test]
fn test_browser_manager_new() {
    let manager = BrowserManager::new("firefox".to_string(), "firefox".to_string());

    assert_eq!(manager.executable, "firefox");
    assert_eq!(manager.process_name, "firefox");
}

#[test]
fn test_browser_manager_new_with_different_values() {
    let manager =
        BrowserManager::new("/usr/bin/chromium".to_string(), "chromium-browser".to_string());

    assert_eq!(manager.executable, "/usr/bin/chromium");
    assert_eq!(manager.process_name, "chromium-browser");
}

#[test]
fn test_browser_manager_clone_behavior() {
    // Test that we can create multiple instances
    let manager1 = BrowserManager::new("firefox".to_string(), "firefox".to_string());

    let manager2 = BrowserManager::new("chromium".to_string(), "chromium".to_string());

    assert_eq!(manager1.executable, "firefox");
    assert_eq!(manager2.executable, "chromium");
    assert_ne!(manager1.executable, manager2.executable);
}

#[test]
fn test_parse_pid_output_plain_listing() {
    let pids = parse_pid_output("123\n456\n7\n");
    assert_eq!(pids, vec![123, 456, 7]);
}

#[test]
fn test_parse_pid_output_empty() {
    let pids = parse_pid_output("");
    assert_eq!(pids, Vec::<i32>::new());
}

#[test]
fn test_parse_pid_output_skips_non_numeric_lines() {
    let pids = parse_pid_output("abc\n 12 \n\n34x\n56\n");
    assert_eq!(pids, vec![12, 56]);
}

#[test]
fn test_parse_pid_output_skips_out_of_range() {
    let pids = parse_pid_output("2147483647\n2147483648\n99999999999999999999\n1\n");
    assert_eq!(pids, vec![2147483647, 1]);
}
