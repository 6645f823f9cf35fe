use remouseable::ssh::{event_command, parse_address, parse_port, validate_event_file};

#[test]
fn accepts_original_event_paths() {
    assert!(validate_event_file("/dev/input/event0").is_ok());
    assert!(validate_event_file("/dev/input/event1").is_ok());
    assert_eq!(
        event_command("/dev/input/event1"),
        "cat '/dev/input/event1'"
    );
}

#[test]
fn rejects_shell_injection_in_event_path() {
    assert!(validate_event_file("/dev/input/event0; reboot").is_err());
    assert!(validate_event_file("$(reboot)").is_err());
    assert!(validate_event_file("relative/event0").is_err());
}

#[test]
fn parses_original_ssh_addresses() {
    assert_eq!(
        parse_address("10.11.99.1:22").unwrap(),
        ("10.11.99.1".to_owned(), 22)
    );
    assert_eq!(
        parse_address("remarkable.local:2222").unwrap(),
        ("remarkable.local".to_owned(), 2222)
    );
    assert_eq!(parse_address("[::1]:22").unwrap(), ("::1".to_owned(), 22));
}

#[test]
fn rejects_addresses_without_a_valid_port() {
    assert!(parse_address("remarkable.local").is_err());
    assert!(parse_address("remarkable.local:").is_err());
    assert!(parse_address("remarkable.local:65536").is_err());
    assert!(parse_address("remarkable.local:-1").is_err());
    assert_eq!(
        parse_address("remarkable.local:+22").unwrap(),
        ("remarkable.local".to_owned(), 22)
    );
}

#[test]
fn parses_ports_like_std() {
    assert_eq!(parse_port("host:65535", "65535").unwrap(), 65535);
    assert_eq!(parse_port("host:0", "0").unwrap(), 0);
    assert!(parse_port("host:x1", "x1").is_err());
    assert!(parse_port("host:", "").is_err());
}

#[test]
fn rejects_quotes_and_empty_event_paths() {
    assert!(validate_event_file("/dev/input/event'0").is_err());
    assert!(validate_event_file("").is_err());
    assert!(validate_event_file("/dev/input/by-id/pen_0.1").is_ok());
    assert_eq!(event_command("/a_b-c.d"), "cat '/a_b-c.d'");
}
