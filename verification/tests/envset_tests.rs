use elliecore::envset::parse_env_overrides;

fn pairs(s: &str) -> Vec<(String, String)> {
    parse_env_overrides(s)
}

#[test]
fn two_overrides_parse_in_order() {
    let r = pairs("A=1;B=2");
    assert_eq!(r.len(), 2);
    assert_eq!(r[0], ("A".to_string(), "1".to_string()));
    assert_eq!(r[1], ("B".to_string(), "2".to_string()));
}

#[test]
fn malformed_piece_is_dropped_neighbours_kept() {
    let r = pairs("A=1;garbage;B=2");
    assert_eq!(r.len(), 2);
    assert_eq!(r[0], ("A".to_string(), "1".to_string()));
    assert_eq!(r[1], ("B".to_string(), "2".to_string()));
}

#[test]
fn empty_string_gives_no_overrides() {
    assert_eq!(pairs("").len(), 0);
}

#[test]
fn lone_garbage_gives_no_overrides() {
    assert_eq!(pairs("garbage").len(), 0);
}

#[test]
fn value_keeps_later_equals_signs() {
    let r = pairs("a=b=c");
    assert_eq!(r.len(), 1);
    assert_eq!(r[0], ("a".to_string(), "b=c".to_string()));
}

#[test]
fn empty_key_and_empty_value_are_kept() {
    let r = pairs("=x;K=");
    assert_eq!(r.len(), 2);
    assert_eq!(r[0], ("".to_string(), "x".to_string()));
    assert_eq!(r[1], ("K".to_string(), "".to_string()));
}

#[test]
fn repeated_keys_stay_in_order() {
    let r = pairs("A=1;A=2");
    assert_eq!(r.len(), 2);
    assert_eq!(r[0], ("A".to_string(), "1".to_string()));
    assert_eq!(r[1], ("A".to_string(), "2".to_string()));
}

#[test]
fn semicolon_inside_value_is_cut_apart() {
    let r = pairs("A=1;2;B=3");
    assert_eq!(r.len(), 2);
    assert_eq!(r[0], ("A".to_string(), "1".to_string()));
    assert_eq!(r[1], ("B".to_string(), "3".to_string()));
}

#[test]
fn empty_pieces_between_separators_are_dropped() {
    let r = pairs(";;A=1;;");
    assert_eq!(r.len(), 1);
    assert_eq!(r[0], ("A".to_string(), "1".to_string()));
}
