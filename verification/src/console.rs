//! Console logging decisions: the verbosity chosen at start-up and the colour
//! of each level.
use vstd::prelude::*;
use vstd::string::StringSliceAdditionalSpecFns;

verus! {

/// Severity of a log record.
#[derive(Clone, Copy, Debug, PartialEq, Eq, Structural)]
pub enum LogLevel {
    /// Errors.
    Error,
    /// Warnings.
    Warn,
    /// Information.
    Info,
    /// Debugging.
    Debug,
    /// Tracing.
    Trace,
}

/// ANSI colour code a record of `level` is printed in.
pub open spec fn spec_color(level: LogLevel) -> u8 {
    match level {
        LogLevel::Error => 31,
        LogLevel::Warn => 93,
        LogLevel::Info => 34,
        LogLevel::Debug => 32,
        LogLevel::Trace => 90,
    }
}

/// ANSI colour code a record of `level` is printed in.
pub fn color_code(level: LogLevel) -> (r: u8)
    ensures
        r == spec_color(level),
{
    match level {
        LogLevel::Error => 31,
        LogLevel::Warn => 93,
        LogLevel::Info => 34,
        LogLevel::Debug => 32,
        LogLevel::Trace => 90,
    }
}

/// ASCII lower case of a byte.
pub open spec fn ascii_lower(b: u8) -> u8 {
    if 0x41 <= b && b <= 0x5a {
        (b + 0x20) as u8
    } else {
        b
    }
}

/// Whether two byte strings are equal ignoring ASCII case.
pub open spec fn eq_ignore_case(a: Seq<u8>, b: Seq<u8>) -> bool {
    a.len() == b.len() && forall|i: int| 0 <= i < a.len() ==> ascii_lower(#[trigger] a[i]) == ascii_lower(b[i])
}

/// Name of verbosity threshold `i`: `OFF`, `ERROR`, `WARN`, `INFO`,
/// `DEBUG`, `TRACE` for 0 to 5.
pub open spec fn level_name(i: int) -> Seq<u8> {
    if i == 0 {
        seq![0x4fu8, 0x46u8, 0x46u8]
    } else if i == 1 {
        seq![0x45u8, 0x52u8, 0x52u8, 0x4fu8, 0x52u8]
    } else if i == 2 {
        seq![0x57u8, 0x41u8, 0x52u8, 0x4eu8]
    } else if i == 3 {
        seq![0x49u8, 0x4eu8, 0x46u8, 0x4fu8]
    } else if i == 4 {
        seq![0x44u8, 0x45u8, 0x42u8, 0x55u8, 0x47u8]
    } else {
        seq![0x54u8, 0x52u8, 0x41u8, 0x43u8, 0x45u8]
    }
}

/// Parses a verbosity threshold (`log::LevelFilter::from_str`), given as
/// its number: 0 off to 5 trace.
///
/// Claims what the crate's source shows: the text names a threshold when it
/// equals that threshold's name ignoring ASCII case, and nothing else parses.
#[verifier::external_body]
fn parse_level_filter(s: &str) -> (r: Option<usize>)
    ensures
        r matches Some(i) ==> i < 6 && eq_ignore_case(s.spec_bytes(), level_name(i as int)),
        r is None ==> forall|i: int| 0 <= i < 6 ==> !eq_ignore_case(s.spec_bytes(), #[trigger] level_name(i)),
{
    match <log::LevelFilter as core::str::FromStr>::from_str(s) {
        Ok(level) => Some(level as usize),
        Err(_) => None,
    }
}

/// The verbosity threshold at start-up from the `RUST_LOG` setting: the
/// threshold it names (see `parse_level_filter`), else info (3).
pub fn max_level(rust_log: Option<&str>) -> (r: usize)
    ensures
        r < 6,
        rust_log is None ==> r == 3,
        rust_log matches Some(s) ==> ((exists|i: int| 0 <= i < 6 && eq_ignore_case(s.spec_bytes(), #[trigger] level_name(i)))
            ==> eq_ignore_case(s.spec_bytes(), level_name(r as int))),
        rust_log matches Some(s) ==> (!(exists|i: int| 0 <= i < 6 && eq_ignore_case(s.spec_bytes(), #[trigger] level_name(i)))
            ==> r == 3),
{
    match rust_log {
        None => 3,
        Some(s) => match parse_level_filter(s) {
            Some(i) => i,
            None => 3,
        },
    }
}

} // verus!
