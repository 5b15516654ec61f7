use vstd::prelude::*;

use crate::text::join3;

verus! {

/// Name pattern of the rolled log files.
pub const ROLL_PATTERN: &'static str = "tiny.log.{}";

pub const LOG_FILE_NAME: &'static str = "tiny.log";

/// Where and how the log is written.
#[derive(Debug, Clone)]
pub struct Logger {
    pub roll_name: String,
    pub file_name: String,
    pub use_cfg: bool,
    pub open: bool,
}

impl Logger {
    /// A logger writing `tiny.log` (rolled to `tiny.log.{}`) in directory `dir`.
    pub fn new(open: bool, use_cfg: bool, dir: &str) -> (r: Logger)
        ensures
            r.roll_name@ == dir@ + "/"@ + ROLL_PATTERN@,
            r.file_name@ == dir@ + "/"@ + LOG_FILE_NAME@,
            r.use_cfg == use_cfg,
            r.open == open,
    {
        Logger {
            roll_name: join3(dir, "/", ROLL_PATTERN),
            file_name: join3(dir, "/", LOG_FILE_NAME),
            use_cfg,
            open,
        }
    }
}

} // verus!
