use openvpn3_status::sessions::{classify_lowered_status, parse_all_sessions, parse_sessions, parse_status};
use openvpn3_status::types::ConnectionStatus;

const TWO_SESSIONS: &str = "-----------------------------------------------------------------------------
        Path: /net/openvpn/v3/sessions/abc123
     Created: 2024-01-01 10:00:00                       PID: 1234
       Owner: user                                   Device: tun0
 Config name: work
Session name: vpn.example.com
      Status: Connection, Client connected
-----------------------------------------------------------------------------

        Path: /net/openvpn/v3/sessions/def456
 Config name: home
      Status: Connection, Client connecting
-----------------------------------------------------------------------------
";

#[test]
fn parses_every_session_block() {
    let sessions = parse_sessions(TWO_SESSIONS);
    assert_eq!(sessions.len(), 2);
    assert_eq!(sessions[0].path, "/net/openvpn/v3/sessions/abc123");
    assert_eq!(sessions[0].profile_name, "work");
    assert_eq!(sessions[0].status, ConnectionStatus::Connected);
    assert_eq!(sessions[1].path, "/net/openvpn/v3/sessions/def456");
    assert_eq!(sessions[1].profile_name, "home");
    assert_eq!(sessions[1].status, ConnectionStatus::Connecting);
}

#[test]
fn last_session_counts_without_trailing_blank_line() {
    let text = "Path: /p/1\nConfig name: a\nStatus: Client connected";
    let sessions = parse_all_sessions(text);
    assert_eq!(sessions.len(), 1);
    assert_eq!(sessions[0].profile_name, "a");
    let with_newline = parse_all_sessions("Path: /p/1\nConfig name: a\nStatus: Client connected\n");
    assert_eq!(with_newline.len(), 1);
    assert_eq!(with_newline[0].path, sessions[0].path);
}

#[test]
fn incomplete_block_is_dropped() {
    let text = "Path: /p/1\nStatus: Client connected\n\nPath: /p/2\nConfig name: b\nStatus: failed\n";
    let sessions = parse_sessions(text);
    assert_eq!(sessions.len(), 1);
    assert_eq!(sessions[0].path, "/p/2");
    assert_eq!(sessions[0].status, ConnectionStatus::Failed);
}

#[test]
fn blank_line_resets_fields_of_the_block() {
    // the profile name of the first block must not leak into the second
    let text = "Config name: a\n\nPath: /p/2\nStatus: ready\n";
    assert!(parse_sessions(text).is_empty());
}

#[test]
fn later_field_in_a_block_wins_and_values_are_trimmed() {
    let text = "Path:   /first  \r\nPath: /second\r\nConfig name:\t x \r\nStatus: Ready\r\n";
    let sessions = parse_sessions(text);
    assert_eq!(sessions.len(), 1);
    assert_eq!(sessions[0].path, "/second");
    assert_eq!(sessions[0].profile_name, "x");
    assert_eq!(sessions[0].status, ConnectionStatus::Connected);
}

#[test]
fn dashed_lines_do_not_separate_blocks() {
    let text = "Path: /p\n---\nConfig name: c\n-----\nStatus: negotiating\n";
    let sessions = parse_sessions(text);
    assert_eq!(sessions.len(), 1);
    assert_eq!(sessions[0].status, ConnectionStatus::Connecting);
}

#[test]
fn empty_output_has_no_sessions() {
    assert!(parse_sessions("").is_empty());
    assert!(parse_sessions("\n\n   \n").is_empty());
}

#[test]
fn status_text_classification() {
    assert_eq!(parse_status("Connection, Client connected"), ConnectionStatus::Connected);
    assert_eq!(parse_status("CONNECTED"), ConnectionStatus::Connected);
    assert_eq!(parse_status("connected but failed"), ConnectionStatus::Failed);
    assert_eq!(parse_status("client connected, failed"), ConnectionStatus::Connected);
    assert_eq!(parse_status("Ready"), ConnectionStatus::Connected);
    assert_eq!(parse_status("Resolving"), ConnectionStatus::Connecting);
    assert_eq!(parse_status("Authenticating"), ConnectionStatus::Connecting);
    assert_eq!(parse_status("Authentication failed"), ConnectionStatus::Failed);
    assert_eq!(parse_status("Disconnected"), ConnectionStatus::Connected);
    assert_eq!(parse_status("paused"), ConnectionStatus::Disconnected);
    assert_eq!(parse_status(""), ConnectionStatus::Disconnected);
}

#[test]
fn classification_of_lowered_text() {
    assert_eq!(classify_lowered_status("client connected"), ConnectionStatus::Connected);
    assert_eq!(classify_lowered_status("negotiating"), ConnectionStatus::Connecting);
    assert_eq!(classify_lowered_status("Connecting"), ConnectionStatus::Disconnected);
}

fn summary(text: &str) -> Vec<(String, String, ConnectionStatus)> {
    parse_sessions(text).into_iter().map(|s| (s.path, s.profile_name, s.status)).collect()
}

#[test]
fn listings_joined_by_a_blank_line_concatenate() {
    let a = "Path: /s/1\nConfig name: a\nStatus: ready\n";
    let b = "Path: /s/2\nConfig name: b\nStatus: failed\n";
    let joined = format!("{}\n{}", a, b);
    let mut expected = summary(a);
    expected.extend(summary(b));
    assert_eq!(summary(&joined), expected);
    assert_eq!(expected.len(), 2);
}

#[test]
fn dash_lines_between_lines_change_nothing() {
    let a = "Path: /s/1\nConfig name: a\n";
    let b = "Status: Client connected\n";
    let with_dashes = format!("{}  -------------  \r\n{}", a, b);
    assert_eq!(summary(&with_dashes), summary(&format!("{}{}", a, b)));
    assert_eq!(summary(&with_dashes).len(), 1);
}

#[test]
fn removing_dash_lines_keeps_the_sessions() {
    let stripped: String = TWO_SESSIONS
        .lines()
        .filter(|l| !l.trim().starts_with("---"))
        .collect::<Vec<_>>()
        .join("\n");
    assert_eq!(summary(&stripped), summary(TWO_SESSIONS));
    assert_eq!(parse_all_sessions(&stripped).len(), parse_all_sessions(TWO_SESSIONS).len());
    let odd = "Path: /s/1\n --- \nConfig name: a\n-----\nStatus: ready\n\n---\nPath: /s/2\n";
    let stripped_odd: String =
        odd.lines().filter(|l| !l.trim().starts_with("---")).collect::<Vec<_>>().join("\n");
    assert_eq!(summary(&stripped_odd), summary(odd));
    assert_eq!(summary(odd).len(), 1);
}

#[test]
fn status_is_read_without_regard_to_case() {
    assert_eq!(parse_status("CLIENT CONNECTED"), parse_status("client connected"));
    assert_eq!(parse_status("Connecting"), ConnectionStatus::Connecting);
    assert_eq!(parse_status("AUTH FAILED"), ConnectionStatus::Failed);
}
