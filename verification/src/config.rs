use vstd::prelude::*;

verus! {

/// The smallest port that may be bound.
pub const PORT_MIN: usize = 1;

/// The largest port that may be bound.
pub const PORT_MAX: usize = 65535;

/// Whether `c` is a decimal digit.
pub open spec fn is_digit(c: char) -> bool {
    '0' <= c && c <= '9'
}

/// The number that the decimal digits `s` write.
pub open spec fn digits_value(s: Seq<char>) -> int
    decreases s.len(),
{
    if s.len() == 0 {
        0
    } else {
        digits_value(s.drop_last()) * 10 + (s.last() as int - '0' as int)
    }
}

/// What `str::parse::<usize>` gives back: an optional `+` followed by one
/// digit or more, whose value fits in a `usize`.
pub open spec fn spec_parse_usize(s: Seq<char>) -> Option<usize> {
    let d = if s.len() > 0 && s[0] == '+' { s.drop_first() } else { s };
    if d.len() > 0 && (forall|i: int| 0 <= i < d.len() ==> is_digit(#[trigger] d[i])) && digits_value(d)
        <= usize::MAX {
        Some(digits_value(d) as usize)
    } else {
        None
    }
}

/// Parses a decimal number with std's `str::parse::<usize>`.
///
/// Claimed, as std documents `usize::from_str`: the text must be an optional
/// `+` followed by digits only, and the value must fit; anything else is an error.
#[verifier::external_body]
fn parse_usize(s: &str) -> (r: Option<usize>)
    ensures
        r == spec_parse_usize(s@),
{
    s.parse::<usize>().ok()
}

/// Why a port was refused.
#[derive(Debug, Clone, Copy, PartialEq, Eq, Structural)]
pub enum PortError {
    /// The text is not a number.
    NotANumber,
    /// The number is not in `PORT_MIN..=PORT_MAX`.
    OutOfRange,
}

/// What `port_parser` answers.
pub open spec fn spec_port(s: Seq<char>) -> Result<u16, PortError> {
    match spec_parse_usize(s) {
        None => Err(PortError::NotANumber),
        Some(p) => if PORT_MIN <= p <= PORT_MAX {
            Ok(p as u16)
        } else {
            Err(PortError::OutOfRange)
        },
    }
}

/// Parses the port to bind: a decimal number from 1 to 65535.
pub fn port_parser(s: &str) -> (r: Result<u16, PortError>)
    ensures
        r == spec_port(s@),
{
    let port = match parse_usize(s) {
        Some(p) => p,
        None => return Err(PortError::NotANumber),
    };
    if PORT_MIN <= port && port <= PORT_MAX {
        Ok(port as u16)
    } else {
        Err(PortError::OutOfRange)
    }
}

/// The verbosity of logging.
#[derive(Debug, Clone, Copy, PartialEq, Eq, Structural)]
pub enum LogLevel {
    Trace,
    Debug,
    Info,
    Warn,
    Error,
}

/// `c` with an ASCII capital letter made small.
pub open spec fn ascii_lower(c: char) -> char {
    if 'A' <= c && c <= 'Z' {
        ((c as int) + 32) as char
    } else {
        c
    }
}

/// Whether `s` and `t` are the same text up to the case of ASCII letters.
pub open spec fn eq_ignore_ascii_case(s: Seq<char>, t: Seq<char>) -> bool {
    &&& s.len() == t.len()
    &&& forall|i: int| 0 <= i < s.len() ==> ascii_lower(#[trigger] s[i]) == ascii_lower(t[i])
}

/// What `tracing::Level::from_str` gives back: a number from 1 (error) to 5
/// (trace), or a level's name in any case of letters.
pub open spec fn spec_log_level(s: Seq<char>) -> Option<LogLevel> {
    match spec_parse_usize(s) {
        Some(n) if n == 1 => Some(LogLevel::Error),
        Some(n) if n == 2 => Some(LogLevel::Warn),
        Some(n) if n == 3 => Some(LogLevel::Info),
        Some(n) if n == 4 => Some(LogLevel::Debug),
        Some(n) if n == 5 => Some(LogLevel::Trace),
        _ => if eq_ignore_ascii_case(s, "error"@) {
            Some(LogLevel::Error)
        } else if eq_ignore_ascii_case(s, "warn"@) {
            Some(LogLevel::Warn)
        } else if eq_ignore_ascii_case(s, "info"@) {
            Some(LogLevel::Info)
        } else if eq_ignore_ascii_case(s, "debug"@) {
            Some(LogLevel::Debug)
        } else if eq_ignore_ascii_case(s, "trace"@) {
            Some(LogLevel::Trace)
        } else {
            None
        },
    }
}

/// Parses a logging level with tracing's `Level::from_str`.
///
/// Claimed, as tracing-core's `impl FromStr for Level` reads: a number from 1
/// to 5 names error, warn, info, debug, trace in that order; otherwise one of
/// those names in any case of ASCII letters; anything else is an error.
#[verifier::external_body]
fn level_from_str(s: &str) -> (r: Option<LogLevel>)
    ensures
        r == spec_log_level(s@),
{
    match s.parse::<tracing::Level>() {
        Ok(tracing::Level::TRACE) => Some(LogLevel::Trace),
        Ok(tracing::Level::DEBUG) => Some(LogLevel::Debug),
        Ok(tracing::Level::INFO) => Some(LogLevel::Info),
        Ok(tracing::Level::WARN) => Some(LogLevel::Warn),
        Ok(tracing::Level::ERROR) => Some(LogLevel::Error),
        Err(_) => None,
    }
}

/// Parses the logging level given on the command line.
pub fn parse_log_level(s: &str) -> (r: Option<LogLevel>)
    ensures
        r == spec_log_level(s@),
{
    level_from_str(s)
}

impl LogLevel {
    /// The name of the level, in capitals.
    pub fn as_str(&self) -> (r: &'static str)
        ensures
            r@ == match *self {
                LogLevel::Trace => "TRACE"@,
                LogLevel::Debug => "DEBUG"@,
                LogLevel::Info => "INFO"@,
                LogLevel::Warn => "WARN"@,
                LogLevel::Error => "ERROR"@,
            },
    {
        match self {
            LogLevel::Trace => "TRACE",
            LogLevel::Debug => "DEBUG",
            LogLevel::Info => "INFO",
            LogLevel::Warn => "WARN",
            LogLevel::Error => "ERROR",
        }
    }
}

/// Why a database path was refused.
#[derive(Debug, Clone, Copy, PartialEq, Eq, Structural)]
pub enum DbPathError {
    /// The path's parent exists and is not a directory.
    ParentNotDir,
    /// The path is a directory.
    IsDir,
}

/// Decides on a database path from what the file system says of it and of
/// its parent; the parent is checked first.
pub fn check_db_path(parent_exists: bool, parent_is_dir: bool, path_exists: bool, path_is_dir: bool) -> (r:
    Result<(), DbPathError>)
    ensures
        r == if parent_exists && !parent_is_dir {
            Err(DbPathError::ParentNotDir)
        } else if path_exists && path_is_dir {
            Err(DbPathError::IsDir)
        } else {
            Ok::<(), DbPathError>(())
        },
{
    if parent_exists && !parent_is_dir {
        return Err(DbPathError::ParentNotDir);
    }
    if path_exists && path_is_dir {
        return Err(DbPathError::IsDir);
    }
    Ok(())
}

/// Every number from 1 to 65535 is accepted as that port, every other number
/// is refused as out of range, and text that is no number is refused as such.
pub proof fn lemma_port_accepts_exactly_1_to_65535(s: Seq<char>)
    ensures
        spec_parse_usize(s) is None ==> spec_port(s) == Err::<u16, PortError>(PortError::NotANumber),
        spec_parse_usize(s) matches Some(n) ==> (1 <= n <= 65535 ==> spec_port(s) == Ok::<u16, PortError>(
            n as u16,
        ) && (n as u16) as int == n as int),
        spec_parse_usize(s) matches Some(n) ==> (!(1 <= n <= 65535) ==> spec_port(s) == Err::<u16, PortError>(
            PortError::OutOfRange,
        )),
{
}

} // verus!
