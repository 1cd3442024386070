//! Traits: describing a server, default configuration, conversions between
//! units, and parsing a log level from text.
use vstd::prelude::*;
use crate::text::{decimal, lowercase, str_eq, to_lowercase, u64_to_string};

verus! {

/// Something that can describe itself in one line.
pub trait Describable {
    fn describe(&self) -> String;
}

/// A machine with a name, CPU cores and memory.
pub struct Server {
    pub name: String,
    pub cpu_cores: u32,
    pub memory_gb: u32,
}

/// `name: <cores>C/<memory>GB`.
pub open spec fn server_line(name: Seq<char>, cpu_cores: nat, memory_gb: nat) -> Seq<char> {
    name + ": "@ + decimal(cpu_cores) + "C/"@ + decimal(memory_gb) + "GB"@
}

impl Describable for Server {
    fn describe(&self) -> (r: String)
        ensures
            r@ == server_line(self.name@, self.cpu_cores as nat, self.memory_gb as nat),
    {
        let mut s = self.name.clone();
        s.append(": ");
        s.append(u64_to_string(self.cpu_cores as u64).as_str());
        s.append("C/");
        s.append(u64_to_string(self.memory_gb as u64).as_str());
        s.append("GB");
        s
    }
}

/// Connection settings with sensible defaults.
#[derive(Debug, Clone, PartialEq)]
pub struct Config {
    pub name: String,
    pub max_connections: u32,
    pub verbose: bool,
}

impl Default for Config {
    fn default() -> (r: Self)
        ensures
            r.name@ == "default"@,
            r.max_connections == 100,
            !r.verbose,
    {
        Self { name: String::from_str("default"), max_connections: 100, verbose: false }
    }
}

/// A duration in whole milliseconds.
#[derive(Debug, Clone, Copy, PartialEq, Eq)]
pub struct Milliseconds(pub u64);

impl From<u64> for Milliseconds {
    fn from(ms: u64) -> (r: Self)
        ensures
            r.0 == ms,
    {
        Milliseconds(ms)
    }
}

impl vstd::std_specs::convert::FromSpecImpl<u64> for Milliseconds {
    open spec fn obeys_from_spec() -> bool {
        true
    }

    open spec fn from_spec(v: u64) -> Self {
        Milliseconds(v)
    }
}

/// The severity of a log message.
#[derive(Debug, Clone, Copy, PartialEq, Eq)]
pub enum LogLevel {
    Debug,
    Info,
    Warning,
    Error,
}

/// The level that a lowercased name stands for.
pub open spec fn level_named(lower: Seq<char>) -> Option<LogLevel> {
    if lower == "debug"@ {
        Some(LogLevel::Debug)
    } else if lower == "info"@ {
        Some(LogLevel::Info)
    } else if lower == "warning"@ || lower == "warn"@ {
        Some(LogLevel::Warning)
    } else if lower == "error"@ || lower == "err"@ {
        Some(LogLevel::Error)
    } else {
        None
    }
}

/// The message for a name that is no level.
pub open spec fn unknown_level_message(lower: Seq<char>) -> Seq<char> {
    "unknown log level: '"@ + lower + "'"@
}

/// How a level is shown.
pub open spec fn level_label(level: LogLevel) -> Seq<char> {
    match level {
        LogLevel::Debug => "DEBUG"@,
        LogLevel::Info => "INFO"@,
        LogLevel::Warning => "WARNING"@,
        LogLevel::Error => "ERROR"@,
    }
}

impl LogLevel {
    /// Reads a level from its name, in any letter case; `warn` and `err`
    /// are accepted as short forms.
    pub fn parse(s: &str) -> (r: Result<LogLevel, String>)
        ensures
            level_named(lowercase(s@)) matches Some(level) ==> r == Ok::<LogLevel, String>(level),
            level_named(lowercase(s@)) is None ==> (r matches Err(m) && m@
                == unknown_level_message(lowercase(s@))),
    {
        let lower = to_lowercase(s);
        let l = lower.as_str();
        if str_eq(l, "debug") {
            Ok(LogLevel::Debug)
        } else if str_eq(l, "info") {
            Ok(LogLevel::Info)
        } else if str_eq(l, "warning") || str_eq(l, "warn") {
            Ok(LogLevel::Warning)
        } else if str_eq(l, "error") || str_eq(l, "err") {
            Ok(LogLevel::Error)
        } else {
            let mut m = String::from_str("unknown log level: '");
            m.append(l);
            m.append("'");
            Err(m)
        }
    }

    /// The upper-case name of the level.
    pub fn as_str(&self) -> (r: &'static str)
        ensures
            r@ == level_label(*self),
    {
        match self {
            LogLevel::Debug => "DEBUG",
            LogLevel::Info => "INFO",
            LogLevel::Warning => "WARNING",
            LogLevel::Error => "ERROR",
        }
    }
}

impl std::str::FromStr for LogLevel {
    type Err = String;

    fn from_str(s: &str) -> (r: Result<Self, Self::Err>)
        ensures
            level_named(lowercase(s@)) matches Some(level) ==> r == Ok::<LogLevel, String>(level),
            level_named(lowercase(s@)) is None ==> (r matches Err(m) && m@
                == unknown_level_message(lowercase(s@))),
    {
        LogLevel::parse(s)
    }
}

} // verus!
