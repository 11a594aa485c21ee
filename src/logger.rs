//! Settings of the service log: where it goes and how much of it is kept.

use vstd::prelude::*;

verus! {

#[derive(Debug, Clone)]
pub struct LoggerConfig {
    /// Directory of the log files.
    pub log_dir: String,
    /// Name prefix of the log files.
    pub file_prefix: String,
    /// Size past which a log file is rolled over, in bytes.
    pub max_file_size: u64,
    /// Number of log files kept.
    pub max_files: usize,
}

impl Default for LoggerConfig {
    fn default() -> (r: Self)
        ensures
            r.log_dir@ == "logs"@,
            r.file_prefix@ == "deepseek_proxy"@,
            r.max_file_size == 10 * 1024 * 1024,
            r.max_files == 5,
    {
        LoggerConfig {
            log_dir: String::from_str("logs"),
            file_prefix: String::from_str("deepseek_proxy"),
            max_file_size: 10 * 1024 * 1024,
            max_files: 5,
        }
    }
}

} // verus!
