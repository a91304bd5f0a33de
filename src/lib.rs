//! Archiving of comic series from a catalog service: rendering of output
//! paths, selection of chapters, planning of image downloads, and the
//! fail-fast sequencing of a whole run.
use vstd::prelude::*;

pub mod api;
pub mod archive;
pub mod download;
pub mod text;

verus! {

/// The text reported as the program's version: the package version alone,
/// or followed by the commit and build date when a commit is known.
pub open spec fn version_of(package: Seq<char>, commit: Seq<char>, date: Seq<char>) -> Seq<char> {
    if commit.len() == 0 {
        package
    } else {
        package + " ("@ + commit + " "@ + date + ")"@
    }
}

pub fn version_text(package: &str, commit: &str, date: &str) -> (r: String)
    ensures
        r@ == version_of(package@, commit@, date@),
{
    let mut r = String::from_str(package);
    if commit.unicode_len() > 0 {
        r.append(" (");
        r.append(commit);
        r.append(" ");
        r.append(date);
        r.append(")");
    }
    r
}

/// How much a run reports.
#[derive(Debug, Clone, Copy, PartialEq, Eq, Structural)]
pub enum LogLevel {
    Debug,
    Info,
}

/// The log level chosen by the setting `value`: `"DEBUG"` gives `Debug`,
/// anything else `Info`.
pub fn log_level_for(value: &str) -> (r: LogLevel)
    ensures
        r == (if value@ == "DEBUG"@ {
            LogLevel::Debug
        } else {
            LogLevel::Info
        }),
{
    if String::from_str(value) == String::from_str("DEBUG") {
        LogLevel::Debug
    } else {
        LogLevel::Info
    }
}

} // verus!
