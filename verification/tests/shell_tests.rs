use elliecore::pathops::path_join;
use elliecore::shell::disk_usage_cmd;
use elliecore::shell::kill_cmd;
use elliecore::shell::network_interfaces_cmd;
use elliecore::shell::ping_cmd;
use elliecore::shell::process_list_cmd;
use elliecore::shell::shell_flag;
use elliecore::shell::shell_program;

#[test]
fn shell_pair_is_fixed() {
    assert_eq!(shell_program(), "sh");
    assert_eq!(shell_flag(), "-c");
}

#[test]
fn disk_usage_command_quotes_the_path() {
    assert_eq!(disk_usage_cmd("/tmp"), "df -h \"/tmp\"");
    assert_eq!(disk_usage_cmd("a dir"), "df -h \"a dir\"");
}

#[test]
fn ping_command_sends_one_probe() {
    assert_eq!(ping_cmd("localhost"), "ping -c 1 localhost");
}

#[test]
fn kill_command_takes_the_pid_text() {
    assert_eq!(kill_cmd("42"), "kill 42");
}

#[test]
fn listing_commands_are_fixed() {
    assert_eq!(process_list_cmd(), "ps aux");
    assert_eq!(network_interfaces_cmd(), "ip addr show");
}

#[test]
fn path_join_inserts_separator() {
    assert_eq!(path_join("a", "b"), "a/b");
    assert_eq!(path_join("/usr", "lib"), "/usr/lib");
}

#[test]
fn path_join_keeps_existing_separator() {
    assert_eq!(path_join("a/", "b"), "a/b");
}

#[test]
fn path_join_of_absolute_second_path_replaces() {
    assert_eq!(path_join("a", "/b"), "/b");
}

#[test]
fn path_join_with_empty_first_path_is_second() {
    assert_eq!(path_join("", "b"), "b");
}

#[test]
fn path_join_with_empty_second_path_keeps_separator() {
    assert_eq!(path_join("a", ""), "a/");
}
