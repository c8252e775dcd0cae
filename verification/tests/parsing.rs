use packet_sniffer::capture::interface::parse_interfaces;
use packet_sniffer::capture::interface::split_lines_exec;
use packet_sniffer::capture::InterfaceProvider;
use packet_sniffer::capture::MockInterfaceProvider;

#[test]
fn mock_returns_exact_interfaces() {
    let provider = MockInterfaceProvider::new(vec!["eth0".to_string(), "lo".to_string()]);
    let result = provider.list_interfaces().unwrap();
    assert_eq!(result, vec!["eth0", "lo"]);
}

#[test]
fn parse_network_device_table() {
    let content = "Inter-|   Receive                | Transmit\n face |bytes    packets|bytes    packets\n    lo:  981     12345|  981     12345\n  eth0: 4283432   99282| 12203      8877\n";
    let names = parse_interfaces(content);
    assert_eq!(names, vec!["lo", "eth0"]);
}

#[test]
fn parse_skips_the_two_header_lines() {
    let content = "header one\nheader two\nonly: 1\n";
    assert_eq!(parse_interfaces(content), vec!["only"]);
}

#[test]
fn parse_too_short_table_gives_no_names() {
    assert_eq!(parse_interfaces(""), Vec::<String>::new());
    assert_eq!(parse_interfaces("one line\n"), Vec::<String>::new());
    assert_eq!(parse_interfaces("one\ntwo\n"), Vec::<String>::new());
}

#[test]
fn parse_line_without_delimiter_takes_whole_line_trimmed() {
    let content = "h1\nh2\n  stray line \n";
    assert_eq!(parse_interfaces(content), vec!["stray line"]);
}

#[test]
fn parse_final_line_may_lack_a_newline() {
    let content = "h1\nh2\n lo: 1 2\n eth0: 3 4";
    assert_eq!(parse_interfaces(content), vec!["lo", "eth0"]);
}

#[test]
fn split_lines_matches_line_endings() {
    assert_eq!(split_lines_exec(""), Vec::<String>::new());
    assert_eq!(split_lines_exec("a\nb"), vec!["a", "b"]);
    assert_eq!(split_lines_exec("a\nb\n"), vec!["a", "b"]);
    assert_eq!(split_lines_exec("a\r\nb\r\n"), vec!["a", "b"]);
    assert_eq!(split_lines_exec("\n\n"), vec!["", ""]);
    assert_eq!(split_lines_exec("a\r"), vec!["a\r"]);
}

#[test]
fn parse_trims_tabs_and_spaces() {
    let content = "h1\nh2\n\t wlan0 \t: 0 0\n";
    assert_eq!(parse_interfaces(content), vec!["wlan0"]);
}
