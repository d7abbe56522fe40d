//! The platform shell and the delegated command lines.
//!
//! Every command runs as `sh -c <command line>`: one process-wide pair,
//! fixed at build time for the target platform and never configurable per
//! call. The introspection helpers — disk usage, network interfaces,
//! process listing, ping, kill — do not call native interfaces; each builds
//! a command line here and routes it through the same executor, inheriting
//! its classification of the captured output.

use vstd::prelude::*;
use vstd::string::StringExecFns;

verus! {

/// The shell executable every command runs through.
pub fn shell_program() -> (r: &'static str)
    ensures
        r@ == "sh"@,
{
    "sh"
}

/// The shell's flag for running a single command string.
pub fn shell_flag() -> (r: &'static str)
    ensures
        r@ == "-c"@,
{
    "-c"
}

/// The disk-usage command for a path: the path stands quoted.
pub open spec fn disk_usage_cmd_spec(path: Seq<char>) -> Seq<char> {
    "df -h \""@ + path + "\""@
}

/// Builds the disk-usage command line for `path`.
pub fn disk_usage_cmd(path: &str) -> (r: String)
    ensures
        r@ == disk_usage_cmd_spec(path@),
{
    let mut r = String::from_str("df -h \"");
    r.append(path);
    r.append("\"");
    r
}

/// The single-probe ping command for a host: the host stands unquoted.
pub open spec fn ping_cmd_spec(host: Seq<char>) -> Seq<char> {
    "ping -c 1 "@ + host
}

/// Builds the ping command line for `host`.
pub fn ping_cmd(host: &str) -> (r: String)
    ensures
        r@ == ping_cmd_spec(host@),
{
    let mut r = String::from_str("ping -c 1 ");
    r.append(host);
    r
}

/// The kill command for a process id given as text.
pub open spec fn kill_cmd_spec(pid: Seq<char>) -> Seq<char> {
    "kill "@ + pid
}

/// Builds the kill command line for `pid`.
pub fn kill_cmd(pid: &str) -> (r: String)
    ensures
        r@ == kill_cmd_spec(pid@),
{
    let mut r = String::from_str("kill ");
    r.append(pid);
    r
}

/// The process-listing command.
pub fn process_list_cmd() -> (r: &'static str)
    ensures
        r@ == "ps aux"@,
{
    "ps aux"
}

/// The network-interface listing command.
pub fn network_interfaces_cmd() -> (r: &'static str)
    ensures
        r@ == "ip addr show"@,
{
    "ip addr show"
}

} // verus!
