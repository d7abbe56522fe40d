//! The fixed sentinel texts of the boundary.
//!
//! A mutating call that succeeds answers the fixed `"OK"`. An argument that
//! does not decode as UTF-8 is rejected before any other work with a fixed
//! `"Invalid …"` message naming the argument; no operating-system call is
//! attempted for it.

use vstd::prelude::*;
use vstd::string::StringExecFns;

verus! {

/// The text-argument positions of the boundary; each names its own
/// rejection message.
#[derive(Clone, Copy, PartialEq, Eq, Structural)]
pub enum TextArg {
    Command,
    Path,
    Content,
    Key,
    Value,
    SourcePath,
    DestinationPath,
    Host,
    ProcessId,
    PathFirst,
    PathSecond,
}

/// The rejection message for an argument that did not decode as UTF-8.
pub open spec fn invalid_text(kind: TextArg) -> Seq<char> {
    match kind {
        TextArg::Command => "Invalid command"@,
        TextArg::Path => "Invalid path"@,
        TextArg::Content => "Invalid content"@,
        TextArg::Key => "Invalid key"@,
        TextArg::Value => "Invalid value"@,
        TextArg::SourcePath => "Invalid source path"@,
        TextArg::DestinationPath => "Invalid destination path"@,
        TextArg::Host => "Invalid host"@,
        TextArg::ProcessId => "Invalid PID"@,
        TextArg::PathFirst => "Invalid path1"@,
        TextArg::PathSecond => "Invalid path2"@,
    }
}

/// Renders the rejection message for one argument position.
pub fn invalid_message(kind: TextArg) -> (r: String)
    ensures
        r@ == invalid_text(kind),
{
    match kind {
        TextArg::Command => String::from_str("Invalid command"),
        TextArg::Path => String::from_str("Invalid path"),
        TextArg::Content => String::from_str("Invalid content"),
        TextArg::Key => String::from_str("Invalid key"),
        TextArg::Value => String::from_str("Invalid value"),
        TextArg::SourcePath => String::from_str("Invalid source path"),
        TextArg::DestinationPath => String::from_str("Invalid destination path"),
        TextArg::Host => String::from_str("Invalid host"),
        TextArg::ProcessId => String::from_str("Invalid PID"),
        TextArg::PathFirst => String::from_str("Invalid path1"),
        TextArg::PathSecond => String::from_str("Invalid path2"),
    }
}

/// The success sentinel of every mutating call.
pub fn ok_text() -> (r: String)
    ensures
        r@ == "OK"@,
{
    String::from_str("OK")
}

/// The report for an operating-system path that does not decode as UTF-8,
/// so it cannot cross the boundary as text.
pub fn path_encoding_error() -> (r: String)
    ensures
        r@ == "Error: Invalid path encoding"@,
{
    String::from_str("Error: Invalid path encoding")
}

/// The flag a host receives for an existence check: one for present, zero
/// for absent or undecodable.
pub fn exists_flag(present: bool) -> (r: i32)
    ensures
        r == if present {
            1int
        } else {
            0int
        },
{
    if present {
        1
    } else {
        0
    }
}

} // verus!
