//! Where the logs go: the console in the `dev` environment, else four
//! daily-rolled files under a log directory.
use crate::text::{concat, str_eq};
use vstd::prelude::*;

verus! {

/// The layout of a log line.
pub const LOG_PATTERN: &'static str = "{d(%Y-%m-%d %H:%M:%S%.3f)} [{l:<5}] [{T}] {M}:{L} - {m}{n}";

/// How many rolled files each log keeps (one per day).
pub const ARCHIVE_COUNT: u32 = 15;

/// A log level, from the most to the least verbose.
#[derive(Debug, Clone, Copy, PartialEq, Eq, Structural)]
pub enum LogLevel {
    Trace,
    Debug,
    Info,
    Warn,
    Error,
}

/// Which records a log file takes.
#[derive(Debug, Clone, Copy, PartialEq, Eq, Structural)]
pub enum LogFilter {
    /// Records at this level or a more severe one.
    AtLeast(LogLevel),
    /// Records at exactly this level.
    Exactly(LogLevel),
}

/// One daily-rolled log file.
#[derive(Debug)]
pub struct LogFile {
    pub name: String,
    pub path: String,
    pub archive_pattern: String,
    pub filter: LogFilter,
}

/// Where the logs go.
#[derive(Debug)]
pub enum LogPlan {
    /// Everything at `level` or above to the console.
    Console { level: LogLevel },
    /// The files, under `archive_dir` for their rolled copies; records
    /// below `level` are dropped before any file sees them.
    Files { archive_dir: String, files: Vec<LogFile>, level: LogLevel },
}

/// The file `name` of the log directory: `{dir}/{name}.log`, rolled to
/// `{dir}/archive/{}-{name}.log`.
pub open spec fn is_log_file(f: LogFile, dir: Seq<char>, name: Seq<char>, filter: LogFilter) -> bool {
    &&& f.name@ == name
    &&& f.path@ == dir + "/"@ + name + ".log"@
    &&& f.archive_pattern@ == dir + "/archive/{}-"@ + name + ".log"@
    &&& f.filter == filter
}

/// The plan for an environment: every record, from `Trace` up, to the
/// console in `dev`; otherwise `all.log` (every record, from `Trace` up)
/// and `info.log`, `warn.log`, `error.log` (each its own level only), with
/// the root at `Trace`.
pub open spec fn log_plan_spec(env: Seq<char>, dir: Seq<char>, plan: LogPlan) -> bool {
    if env == "dev"@ {
        plan == LogPlan::Console { level: LogLevel::Trace }
    } else {
        &&& plan matches LogPlan::Files { archive_dir, files, level }
        &&& archive_dir@ == dir + "/archive"@
        &&& level == LogLevel::Trace
        &&& files@.len() == 4
        &&& is_log_file(files@[0], dir, "all"@, LogFilter::AtLeast(LogLevel::Trace))
        &&& is_log_file(files@[1], dir, "info"@, LogFilter::Exactly(LogLevel::Info))
        &&& is_log_file(files@[2], dir, "warn"@, LogFilter::Exactly(LogLevel::Warn))
        &&& is_log_file(files@[3], dir, "error"@, LogFilter::Exactly(LogLevel::Error))
    }
}

fn log_file(dir: &str, name: &str, filter: LogFilter) -> (f: LogFile)
    ensures
        is_log_file(f, dir@, name@, filter),
{
    let mut path = concat(dir, "/");
    path.append(name);
    path.append(".log");
    let mut archive = concat(dir, "/archive/{}-");
    archive.append(name);
    archive.append(".log");
    LogFile { name: name.to_owned(), path, archive_pattern: archive, filter }
}

/// The log plan for the environment and log directory.
pub fn log_plan(env: &str, log_dir: &str) -> (plan: LogPlan)
    ensures
        log_plan_spec(env@, log_dir@, plan),
{
    if str_eq(env, "dev") {
        return LogPlan::Console { level: LogLevel::Trace };
    }
    let mut files: Vec<LogFile> = Vec::new();
    files.push(log_file(log_dir, "all", LogFilter::AtLeast(LogLevel::Trace)));
    files.push(log_file(log_dir, "info", LogFilter::Exactly(LogLevel::Info)));
    files.push(log_file(log_dir, "warn", LogFilter::Exactly(LogLevel::Warn)));
    files.push(log_file(log_dir, "error", LogFilter::Exactly(LogLevel::Error)));
    LogPlan::Files { archive_dir: concat(log_dir, "/archive"), files, level: LogLevel::Trace }
}

pub open spec fn severity(l: LogLevel) -> int {
    match l {
        LogLevel::Trace => 0,
        LogLevel::Debug => 1,
        LogLevel::Info => 2,
        LogLevel::Warn => 3,
        LogLevel::Error => 4,
    }
}

fn severity_of(l: LogLevel) -> (r: u8)
    ensures
        r == severity(l),
{
    match l {
        LogLevel::Trace => 0,
        LogLevel::Debug => 1,
        LogLevel::Info => 2,
        LogLevel::Warn => 3,
        LogLevel::Error => 4,
    }
}

/// Whether a file with this filter takes a record of this level.
pub fn filter_accepts(filter: LogFilter, record: LogLevel) -> (r: bool)
    ensures
        r == match filter {
            LogFilter::AtLeast(min) => severity(record) >= severity(min),
            LogFilter::Exactly(l) => record == l,
        },
{
    match filter {
        LogFilter::AtLeast(min) => severity_of(record) >= severity_of(min),
        LogFilter::Exactly(l) => record == l,
    }
}

} // verus!
