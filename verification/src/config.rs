//! The static options structure handed to the core at start-up: browser,
//! polling, timeout, background and file settings, with the built-in
//! fallback used when no configuration file can be loaded.

use vstd::prelude::*;
use vstd::string::*;

verus! {

/// Which browser to launch and which processes to police.
#[derive(Debug, Clone)]
pub struct BrowserConfig {
    /// The executable to launch.
    pub executable: String,
    /// The page it is launched on.
    pub url: String,
    /// The pattern the process killer matches command lines against.
    pub process_name: String,
}

/// How the monitoring loop paces itself.
#[derive(Debug, Clone, Copy)]
pub struct MonitoringConfig {
    /// Seconds between ticks.
    pub check_frequency_seconds: u64,
}

/// The durations of blocks and breaks.
#[derive(Debug, Clone, Copy)]
pub struct TimeoutConfig {
    /// Minutes a content block lasts.
    pub blacklist_timeout_minutes: u64,
    /// Minutes a bathroom break lasts.
    pub bathroom_break_minutes: u64,
    /// Hours between bathroom breaks.
    pub bathroom_break_interval_hours: u64,
}

/// The wallpaper shown in each enforcement condition.
#[derive(Debug, Clone)]
pub struct BackgroundConfig {
    /// Wallpaper outside any enforcement window.
    pub normal: String,
    /// Wallpaper while content is blocked.
    pub blocked: String,
    /// Wallpaper during a bathroom break.
    pub bathroom_break: String,
}

/// Where the rule files and the state file live.
#[derive(Debug, Clone)]
pub struct FileConfig {
    /// Path of the blacklist pattern file.
    pub blacklist: String,
    /// Path of the whitelist pattern file.
    pub whitelist: String,
    /// Path of the persisted state record.
    pub state_file: String,
}

/// Everything the daemon is configured with.
#[derive(Debug, Clone)]
pub struct Config {
    pub browser: BrowserConfig,
    pub monitoring: MonitoringConfig,
    pub timeouts: TimeoutConfig,
    pub backgrounds: BackgroundConfig,
    pub files: FileConfig,
}

impl Config {
    /// The built-in fallback configuration, used when no configuration file
    /// loads.
    pub fn default() -> (c: Config)
        ensures
            c.browser.executable@ == "firefox"@,
            c.browser.url@ == "https://www.google.com"@,
            c.browser.process_name@ == "firefox"@,
            c.monitoring.check_frequency_seconds == 60,
            c.timeouts.blacklist_timeout_minutes == 10,
            c.timeouts.bathroom_break_minutes == 10,
            c.timeouts.bathroom_break_interval_hours == 3,
            c.backgrounds.normal@ == "/home/user/backgrounds/normal.jpg"@,
            c.backgrounds.blocked@ == "/home/user/backgrounds/blocked.jpg"@,
            c.backgrounds.bathroom_break@ == "/home/user/backgrounds/bathroom.jpg"@,
            c.files.blacklist@ == "blacklist.txt"@,
            c.files.whitelist@ == "whitelist.txt"@,
            c.files.state_file@ == "/tmp/ivh_state.json"@,
    {
        Config {
            browser: BrowserConfig {
                executable: String::from_str("firefox"),
                url: String::from_str("https://www.google.com"),
                process_name: String::from_str("firefox"),
            },
            monitoring: MonitoringConfig { check_frequency_seconds: 60 },
            timeouts: TimeoutConfig {
                blacklist_timeout_minutes: 10,
                bathroom_break_minutes: 10,
                bathroom_break_interval_hours: 3,
            },
            backgrounds: BackgroundConfig {
                normal: String::from_str("/home/user/backgrounds/normal.jpg"),
                blocked: String::from_str("/home/user/backgrounds/blocked.jpg"),
                bathroom_break: String::from_str("/home/user/backgrounds/bathroom.jpg"),
            },
            files: FileConfig {
                blacklist: String::from_str("blacklist.txt"),
                whitelist: String::from_str("whitelist.txt"),
                state_file: String::from_str("/tmp/ivh_state.json"),
            },
        }
    }
}

} // verus!
