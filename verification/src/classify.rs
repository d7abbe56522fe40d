//! Classification of a finished child process's captured output.
//!
//! A command runs through the platform shell; its standard output and
//! standard error are captured separately as raw bytes, together with an
//! exit status. The bridge reports a single string: on a non-success exit an
//! `"Error: "`-prefixed record carrying both streams, on a success with
//! diagnostics an `"Output:"`/`"Error:"` record, and on a clean success the
//! trimmed standard output alone. The shell-delegated helpers (disk usage,
//! interface and process listings, ping) route their command through the
//! same executor and inherit this classification unchanged; only the kill
//! helper has its own layout, answering the fixed `"OK"` on success. Failure
//! to spawn at all is reported as `"Error: "` followed by the operating
//! system's message.

use vstd::prelude::*;
use vstd::string::StrSliceExecFns;
use vstd::string::StringExecFns;
use crate::text::trim_spec;
use crate::text::trim_str;

verus! {

/// What lossy UTF-8 decoding makes of a byte sequence: invalid sequences are
/// replaced, never reported.
pub uninterp spec fn lossy_utf8(b: Seq<u8>) -> Seq<char>;

/// Relies on String::from_utf8_lossy: a pure function of the bytes alone;
/// it returns the empty string for empty input and decodes bytes below
/// 0x80 — valid UTF-8 — to themselves.
#[verifier::external_body]
fn lossy_decode(b: &Vec<u8>) -> (r: String)
    ensures
        r@ == lossy_utf8(b@),
        b@.len() == 0 ==> r@.len() == 0,
        (forall|i: int| 0 <= i < b@.len() ==> b@[i] < 0x80) ==> r@ == b@.map_values(
            |x: u8| x as char,
        ),
{
    String::from_utf8_lossy(b.as_slice()).into_owned()
}

/// The report for a process that ran to completion, as a function of its
/// exit status and decoded output streams.
pub open spec fn classify_spec(success: bool, out: Seq<char>, err: Seq<char>) -> Seq<char> {
    if !success {
        "Error: "@ + trim_spec(err) + "\nOutput:\n"@ + trim_spec(out)
    } else if trim_spec(err).len() != 0 {
        "Output:\n"@ + trim_spec(out) + "\nError:\n"@ + trim_spec(err)
    } else {
        trim_spec(out)
    }
}

/// The report for the kill helper: the fixed `"OK"` on success, the trimmed
/// standard error behind `"Error: "` on failure.
pub open spec fn classify_kill_spec(success: bool, err: Seq<char>) -> Seq<char> {
    if success {
        "OK"@
    } else {
        "Error: "@ + trim_spec(err)
    }
}

/// Formats a completed command's result: `success` is the child's exit
/// status, `stdout` and `stderr` its captured streams. The shell-delegated
/// helpers other than kill classify through this same function.
pub fn format_process_result(success: bool, stdout: &Vec<u8>, stderr: &Vec<u8>) -> (r: String)
    ensures
        r@ == classify_spec(success, lossy_utf8(stdout@), lossy_utf8(stderr@)),
        success && stderr@.len() == 0 ==> r@ == trim_spec(lossy_utf8(stdout@)),
{
    let out = lossy_decode(stdout);
    let err = lossy_decode(stderr);
    let out_t = trim_str(out.as_str());
    let err_t = trim_str(err.as_str());
    if !success {
        let mut r = String::from_str("Error: ");
        r.append(err_t.as_str());
        r.append("\nOutput:\n");
        r.append(out_t.as_str());
        proof {
            assert(r@ =~= classify_spec(success, lossy_utf8(stdout@), lossy_utf8(stderr@)));
        }
        r
    } else if err_t.as_str().unicode_len() != 0 {
        let mut r = String::from_str("Output:\n");
        r.append(out_t.as_str());
        r.append("\nError:\n");
        r.append(err_t.as_str());
        proof {
            assert(r@ =~= classify_spec(success, lossy_utf8(stdout@), lossy_utf8(stderr@)));
            if stderr@.len() == 0 {
                assert(trim_spec(err@) =~= Seq::<char>::empty());
            }
        }
        r
    } else {
        out_t
    }
}

/// Formats a kill command's result.
pub fn format_kill_result(success: bool, stderr: &Vec<u8>) -> (r: String)
    ensures
        r@ == classify_kill_spec(success, lossy_utf8(stderr@)),
{
    if success {
        String::from_str("OK")
    } else {
        let err = lossy_decode(stderr);
        let err_t = trim_str(err.as_str());
        let mut r = String::from_str("Error: ");
        r.append(err_t.as_str());
        r
    }
}

/// Formats a failure that happened before or outside any child process: the
/// operating system's message behind `"Error: "`. The message is reported as
/// given, untrimmed.
pub fn error_message(detail: &str) -> (r: String)
    ensures
        r@ == "Error: "@ + detail@,
{
    let mut r = String::from_str("Error: ");
    r.append(detail);
    r
}

/// A clean run reports the trimmed standard output verbatim: whenever the
/// process succeeded and its standard error trims to nothing, the report is
/// exactly the trimmed standard output.
pub proof fn lemma_clean_run_reports_stdout(out: Seq<char>, err: Seq<char>)
    requires
        trim_spec(err).len() == 0,
    ensures
        classify_spec(true, out, err) == trim_spec(out),
{
}

/// A failed run reports, in order: `"Error: "`, the trimmed standard error,
/// `"\nOutput:\n"`, the trimmed standard output — whatever the streams hold.
pub proof fn lemma_failed_run_report_shape(out: Seq<char>, err: Seq<char>)
    ensures
        classify_spec(false, out, err) == "Error: "@ + trim_spec(err) + "\nOutput:\n"@ + trim_spec(
            out,
        ),
{
}

} // verus!
