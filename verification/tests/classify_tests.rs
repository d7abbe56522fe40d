use elliecore::classify::error_message;
use elliecore::classify::format_kill_result;
use elliecore::classify::format_process_result;

#[test]
fn clean_success_reports_trimmed_stdout() {
    let out = format_process_result(true, &b"hi\n".to_vec(), &b"".to_vec());
    assert_eq!(out, "hi");
}

#[test]
fn clean_success_trims_both_edges() {
    let out = format_process_result(true, &b"  spaced out \t\n".to_vec(), &b"".to_vec());
    assert_eq!(out, "spaced out");
}

#[test]
fn failure_reports_error_then_output() {
    let out = format_process_result(false, &b"partial\n".to_vec(), &b"boom\n".to_vec());
    assert_eq!(out, "Error: boom\nOutput:\npartial");
}

#[test]
fn failure_with_empty_streams_keeps_layout() {
    let out = format_process_result(false, &b"".to_vec(), &b"".to_vec());
    assert_eq!(out, "Error: \nOutput:\n");
    assert!(out.starts_with("Error: "));
}

#[test]
fn success_with_diagnostics_reports_both() {
    let out = format_process_result(true, &b"hi\n".to_vec(), &b"warn\n".to_vec());
    assert_eq!(out, "Output:\nhi\nError:\nwarn");
}

#[test]
fn whitespace_only_stderr_counts_as_empty() {
    let out = format_process_result(true, &b"hi\n".to_vec(), &b" \t\n".to_vec());
    assert_eq!(out, "hi");
}

#[test]
fn invalid_utf8_output_is_replaced_not_refused() {
    let out = format_process_result(true, &vec![0x68, 0xff, 0x69, 0x0a], &b"".to_vec());
    assert_eq!(out, "h\u{fffd}i");
}

#[test]
fn delegated_command_success_is_trimmed_stdout() {
    let out = format_process_result(true, &b"fs usage\n".to_vec(), &b"".to_vec());
    assert_eq!(out, "fs usage");
}

#[test]
fn delegated_command_failure_keeps_output_section() {
    let out = format_process_result(false, &b"partial listing\n".to_vec(), &b"no such path\n".to_vec());
    assert_eq!(out, "Error: no such path\nOutput:\npartial listing");
    assert!(out.starts_with("Error: "));
}

#[test]
fn kill_success_is_ok() {
    let out = format_kill_result(true, &b"".to_vec());
    assert_eq!(out, "OK");
}

#[test]
fn kill_failure_is_error_stderr() {
    let out = format_kill_result(false, &b"no such process\n".to_vec());
    assert_eq!(out, "Error: no such process");
}

#[test]
fn error_message_keeps_detail_untrimmed() {
    let out = error_message("No such file or directory (os error 2)");
    assert_eq!(out, "Error: No such file or directory (os error 2)");
    let spaced = error_message(" odd ");
    assert_eq!(spaced, "Error:  odd ");
}
