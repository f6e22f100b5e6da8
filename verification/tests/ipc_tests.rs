use hash_checker::ipc::{parse_port, port_file_name, received_path};

#[test]
fn port_file_name_prefers_username_then_user() {
    assert_eq!(port_file_name(Some("alice"), Some("bob")), "hash_checker_alice.port");
    assert_eq!(port_file_name(None, Some("bob")), "hash_checker_bob.port");
    assert_eq!(port_file_name(None, None), "hash_checker_default.port");
}

#[test]
fn parse_port_reads_trimmed_decimal() {
    assert_eq!(parse_port("  8080\n"), Some(8080));
    assert_eq!(parse_port("+443"), Some(443));
    assert_eq!(parse_port("0"), Some(0));
    assert_eq!(parse_port("65535"), Some(65535));
    assert_eq!(parse_port("007"), Some(7));
}

#[test]
fn parse_port_refuses_what_u16_refuses() {
    for text in ["", "  ", "+", "-1", "65536", "123456789", "12a", "1 2", "++1"] {
        assert_eq!(parse_port(text), text.trim().parse::<u16>().ok(), "{:?}", text);
        assert_eq!(parse_port(text), None);
    }
}

#[test]
fn received_lines_are_trimmed_paths() {
    assert_eq!(received_path("  /tmp/a.iso \r"), Some("/tmp/a.iso".to_string()));
    assert_eq!(received_path("   "), None);
    assert_eq!(received_path(""), None);
}
