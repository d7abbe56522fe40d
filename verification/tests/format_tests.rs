use elliecore::numfmt::bool_str;
use elliecore::numfmt::u64_dec;
use elliecore::numfmt::u64_hex;
use elliecore::records::metadata_record;
use elliecore::records::system_info_record;
use elliecore::sentinel::exists_flag;
use elliecore::sentinel::invalid_message;
use elliecore::sentinel::ok_text;
use elliecore::sentinel::path_encoding_error;
use elliecore::sentinel::TextArg;

#[test]
fn decimal_rendering_is_exact() {
    assert_eq!(u64_dec(0), "0");
    assert_eq!(u64_dec(7), "7");
    assert_eq!(u64_dec(105), "105");
    assert_eq!(u64_dec(18446744073709551615), "18446744073709551615");
}

#[test]
fn hex_rendering_is_lowercase_without_leading_zeros() {
    assert_eq!(u64_hex(0), "0");
    assert_eq!(u64_hex(10), "a");
    assert_eq!(u64_hex(255), "ff");
    assert_eq!(u64_hex(0xdeadbeef), "deadbeef");
    assert_eq!(u64_hex(0xffffffffffffffff), "ffffffffffffffff");
}

#[test]
fn bool_rendering_is_exact() {
    assert_eq!(bool_str(true), "true");
    assert_eq!(bool_str(false), "false");
}

#[test]
fn metadata_record_has_fixed_shape() {
    let r = metadata_record(5, false, 1000);
    assert_eq!(r, "{\"size\":5,\"readonly\":false,\"modified\":1000}");
    let ro = metadata_record(0, true, 0);
    assert_eq!(ro, "{\"size\":0,\"readonly\":true,\"modified\":0}");
}

#[test]
fn system_info_record_has_fixed_shape() {
    let r = system_info_record("linux", "x86_64", "unix", "8");
    assert_eq!(
        r,
        "{\"os\":\"linux\",\"arch\":\"x86_64\",\"family\":\"unix\",\"cpu_count\":8}"
    );
    let unknown = system_info_record("linux", "x86_64", "unix", "unknown");
    assert_eq!(
        unknown,
        "{\"os\":\"linux\",\"arch\":\"x86_64\",\"family\":\"unix\",\"cpu_count\":unknown}"
    );
}

#[test]
fn invalid_messages_name_the_argument() {
    assert_eq!(invalid_message(TextArg::Command), "Invalid command");
    assert_eq!(invalid_message(TextArg::Path), "Invalid path");
    assert_eq!(invalid_message(TextArg::Content), "Invalid content");
    assert_eq!(invalid_message(TextArg::Key), "Invalid key");
    assert_eq!(invalid_message(TextArg::Value), "Invalid value");
    assert_eq!(invalid_message(TextArg::SourcePath), "Invalid source path");
    assert_eq!(
        invalid_message(TextArg::DestinationPath),
        "Invalid destination path"
    );
    assert_eq!(invalid_message(TextArg::Host), "Invalid host");
    assert_eq!(invalid_message(TextArg::ProcessId), "Invalid PID");
    assert_eq!(invalid_message(TextArg::PathFirst), "Invalid path1");
    assert_eq!(invalid_message(TextArg::PathSecond), "Invalid path2");
}

#[test]
fn ok_and_exists_sentinels() {
    assert_eq!(ok_text(), "OK");
    assert_eq!(exists_flag(true), 1);
    assert_eq!(exists_flag(false), 0);
}

#[test]
fn path_encoding_failure_is_an_error_text() {
    assert_eq!(path_encoding_error(), "Error: Invalid path encoding");
}
