//! Fixed-shape structured text records.
//!
//! Metadata and system introspection answers cross the boundary as one-line
//! records with a fixed layout. The field order, punctuation and quoting are
//! part of the interface: hosts parse these strings.

use vstd::prelude::*;
use vstd::string::StringExecFns;
use crate::numfmt::bool_seq;
use crate::numfmt::bool_str;
use crate::numfmt::dec_seq;
use crate::numfmt::u64_dec;

verus! {

/// The metadata record for a file: its size in bytes, its read-only flag,
/// and its modification time in seconds since the epoch.
pub open spec fn metadata_record_spec(size: int, readonly: bool, modified: int) -> Seq<char> {
    "{\"size\":"@ + dec_seq(size) + ",\"readonly\":"@ + bool_seq(readonly) + ",\"modified\":"@
        + dec_seq(modified) + "}"@
}

/// Renders a file's metadata record.
pub fn metadata_record(size: u64, readonly: bool, modified: u64) -> (r: String)
    ensures
        r@ == metadata_record_spec(size as int, readonly, modified as int),
{
    let mut r = String::from_str("{\"size\":");
    let size_text = u64_dec(size);
    r.append(size_text.as_str());
    r.append(",\"readonly\":");
    r.append(bool_str(readonly));
    r.append(",\"modified\":");
    let modified_text = u64_dec(modified);
    r.append(modified_text.as_str());
    r.append("}");
    proof {
        assert(r@ =~= metadata_record_spec(size as int, readonly, modified as int));
    }
    r
}

/// The system-introspection record: operating system, architecture and
/// family as quoted strings, and the processor count unquoted, as the host
/// receives it even when the count could not be read and is a word instead
/// of a number.
pub open spec fn system_info_spec(
    os: Seq<char>,
    arch: Seq<char>,
    family: Seq<char>,
    cpu: Seq<char>,
) -> Seq<char> {
    "{\"os\":\""@ + os + "\",\"arch\":\""@ + arch + "\",\"family\":\""@ + family
        + "\",\"cpu_count\":"@ + cpu + "}"@
}

/// Renders the system-introspection record.
pub fn system_info_record(os: &str, arch: &str, family: &str, cpu_count: &str) -> (r: String)
    ensures
        r@ == system_info_spec(os@, arch@, family@, cpu_count@),
{
    let mut r = String::from_str("{\"os\":\"");
    r.append(os);
    r.append("\",\"arch\":\"");
    r.append(arch);
    r.append("\",\"family\":\"");
    r.append(family);
    r.append("\",\"cpu_count\":");
    r.append(cpu_count);
    r.append("}");
    proof {
        assert(r@ =~= system_info_spec(os@, arch@, family@, cpu_count@));
    }
    r
}

} // verus!
