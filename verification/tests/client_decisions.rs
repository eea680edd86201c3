use std::collections::HashMap;

use openvpn3_status::client::{
    import_profile_name, lists_service, requires_static_challenge, session_paths_for_profile,
    session_start_failure, sessions_to_disconnect, summarize_disconnects, values_to_provide,
    DisconnectOutcome, FetchRetry, RetryStep, MAX_ATTEMPTS, RETRY_DELAY_MS,
};
use openvpn3_status::error::Error;
use openvpn3_status::types::{ConnectionStatus, CredentialInput, Credentials, Session};

fn session(path: &str, name: &str) -> Session {
    Session { path: path.to_string(), profile_name: name.to_string(), status: ConnectionStatus::Connected }
}

fn input(input_type: u32, input_group: u32, id: u32, name: &str) -> CredentialInput {
    CredentialInput {
        id,
        input_type,
        input_group,
        name: name.to_string(),
        description: String::new(),
        hidden: false,
    }
}

#[test]
fn retries_only_while_the_service_activates() {
    let mut r = FetchRetry::new();
    assert_eq!(
        r.on_failure("org.freedesktop.DBus.Error.UnknownMethod: nope".to_string()),
        RetryStep::Retry { delay_ms: RETRY_DELAY_MS }
    );
    assert_eq!(r.on_failure("object does not exist".to_string()), RetryStep::Retry { delay_ms: 500 });
    assert_eq!(r.attempt, MAX_ATTEMPTS);
    assert_eq!(r.on_failure("UnknownMethod again".to_string()), RetryStep::GiveUp);
    match r.config_fetch_error() {
        Error::DbusMethod(m) => assert_eq!(m, "Failed to fetch configs after retries: UnknownMethod again"),
        other => panic!("unexpected {:?}", other),
    }
}

#[test]
fn other_errors_give_up_at_once() {
    let mut r = FetchRetry::new();
    assert_eq!(r.on_failure("Access denied".to_string()), RetryStep::GiveUp);
    assert_eq!(r.attempt, 1);
    let fresh = FetchRetry::new();
    match fresh.config_fetch_error() {
        Error::DbusMethod(m) => assert_eq!(m, "Failed to fetch configs after retries: Unknown error"),
        other => panic!("unexpected {:?}", other),
    }
}

#[test]
fn import_name_prefers_a_given_name() {
    assert_eq!(import_profile_name("/tmp/work.ovpn", Some("  Office  ")).unwrap(), "Office");
    assert_eq!(import_profile_name("/tmp/work.ovpn", Some("   ")).unwrap(), "work");
    assert_eq!(import_profile_name("/tmp/work.ovpn", None).unwrap(), "work");
    assert_eq!(import_profile_name("home.conf.ovpn", None).unwrap(), "home.conf");
    match import_profile_name("/", None) {
        Err(Error::InvalidInput(m)) => assert_eq!(m, "Could not determine profile name"),
        other => panic!("unexpected {:?}", other),
    }
}

#[test]
fn import_name_follows_the_path_rules() {
    let stem = |path: &str| import_profile_name(path, None).ok();
    assert_eq!(stem("/tmp/work.ovpn").as_deref(), Some("work"));
    assert_eq!(stem("a/.."), None);
    assert_eq!(stem("a/."), Some("a".to_string()));
    assert_eq!(stem(".bashrc").as_deref(), Some(".bashrc"));
    assert_eq!(stem("a.b.c").as_deref(), Some("a.b"));
    assert_eq!(stem("foo.").as_deref(), Some("foo"));
    assert_eq!(stem("/"), None);
    assert_eq!(stem(""), None);
    assert_eq!(stem("."), None);
    assert_eq!(stem("a//b/").as_deref(), Some("b"));
    assert_eq!(stem("./x.y").as_deref(), Some("x"));
    assert_eq!(stem("dir/.hidden.ovpn").as_deref(), Some(".hidden"));
}

#[test]
fn queue_entry_becomes_an_input() {
    let entry = (9, 8, 3, "password".to_string(), "Password".to_string(), true);
    let input = CredentialInput::from_queue_entry(1, 2, entry);
    assert_eq!(input.input_type, 1);
    assert_eq!(input.input_group, 2);
    assert_eq!(input.id, 3);
    assert_eq!(input.name, "password");
    assert_eq!(input.description, "Password");
    assert!(input.hidden);
}

#[test]
fn only_requested_fields_with_values_are_provided() {
    let inputs = vec![input(1, 1, 0, "Username"), input(1, 2, 0, "Password"), input(2, 3, 7, "Token")];
    let mut creds = Credentials::new();
    creds.add(inputs[0].unique_id(), "alice".to_string());
    creds.add(inputs[2].unique_id(), "123456".to_string());
    creds.add(99, "ignored".to_string());
    let out = values_to_provide(&inputs, &creds);
    assert_eq!(out.len(), 2);
    assert_eq!((out[0].input_type, out[0].input_group, out[0].id), (1, 1, 0));
    assert_eq!(out[0].value, "alice");
    assert_eq!(out[0].name, "Username");
    assert_eq!((out[1].input_type, out[1].input_group, out[1].id), (2, 3, 7));
    assert_eq!(out[1].value, "123456");
}

#[test]
fn unique_id_packs_type_group_and_slot() {
    assert_eq!(input(1, 2, 3, "x").unique_id(), 1_002_003);
    assert_eq!(input(0, 0, 0, "x").unique_id(), 0);
    assert_eq!(input(4294, 967, 295, "x").checked_unique_id(), Some(u32::MAX));
    assert_eq!(input(4294, 967, 296, "x").checked_unique_id(), None);
    assert_eq!(input(5000, 0, 0, "x").checked_unique_id(), None);
}

#[test]
fn credentials_keep_the_last_value_per_key() {
    let mut c = Credentials::new();
    assert!(c.values.is_empty());
    c.add(5, "a".to_string());
    c.add(5, "b".to_string());
    let mut expected = HashMap::new();
    expected.insert(5u32, "b".to_string());
    assert_eq!(c.values, expected);
}

#[test]
fn sessions_of_a_profile_are_closed_in_order() {
    let sessions = vec![session("/s/1", "a"), session("/s/2", "b"), session("/s/3", "a")];
    assert_eq!(session_paths_for_profile(&sessions, "a"), vec!["/s/1".to_string(), "/s/3".to_string()]);
    assert!(session_paths_for_profile(&sessions, "c").is_empty());
    assert_eq!(sessions_to_disconnect(&sessions, "b").unwrap(), vec!["/s/2".to_string()]);
    match sessions_to_disconnect(&sessions, "c") {
        Err(Error::SessionNotFound(n)) => assert_eq!(n, "c"),
        other => panic!("unexpected {:?}", other),
    }
}

#[test]
fn disconnect_fails_only_when_no_session_closed() {
    let some_ok = vec![
        DisconnectOutcome { path: "/s/1".to_string(), failure: Some("boom".to_string()) },
        DisconnectOutcome { path: "/s/2".to_string(), failure: None },
    ];
    assert!(summarize_disconnects(&some_ok).is_ok());
    let all_failed = vec![
        DisconnectOutcome { path: "/s/1".to_string(), failure: Some("boom".to_string()) },
        DisconnectOutcome { path: "/s/2".to_string(), failure: Some("bang".to_string()) },
    ];
    match summarize_disconnects(&all_failed) {
        Err(Error::CommandFailed { stderr, stdout }) => {
            assert_eq!(stderr, "Failed to disconnect any sessions: /s/1: boom; /s/2: bang");
            assert_eq!(stdout, "");
        }
        other => panic!("unexpected {:?}", other),
    }
}

#[test]
fn failed_session_start_is_classified() {
    match session_start_failure("AUTH_FAILED: auth rejected".to_string(), "out".to_string()) {
        Error::AuthenticationFailed(m) => assert_eq!(m, "AUTH_FAILED: auth rejected"),
        other => panic!("unexpected {:?}", other),
    }
    match session_start_failure("no such config".to_string(), "out".to_string()) {
        Error::CommandFailed { stderr, stdout } => {
            assert_eq!(stderr, "no such config");
            assert_eq!(stdout, "out");
        }
        other => panic!("unexpected {:?}", other),
    }
}

#[test]
fn static_challenge_is_detected_in_config_dumps() {
    assert!(requires_static_challenge("{\"static-challenge\": \"Enter code\"}"));
    assert!(!requires_static_challenge("{\"static_challenge\": 1}"));
}

#[test]
fn activatable_service_lookup() {
    let names = vec!["org.freedesktop.DBus".to_string(), "net.openvpn.v3.configuration".to_string()];
    assert!(lists_service(&names, "net.openvpn.v3.configuration"));
    assert!(!lists_service(&names, "net.openvpn.v3.sessions"));
}

#[test]
fn keys_of_distinct_slots_differ() {
    let mut keys = Vec::new();
    for t in 0..3u32 {
        for g in [0u32, 1, 999] {
            for i in [0u32, 1, 999] {
                keys.push(input(t, g, i, "x").unique_id());
            }
        }
    }
    let mut sorted = keys.clone();
    sorted.sort();
    sorted.dedup();
    assert_eq!(sorted.len(), keys.len());
    // beyond a thousand slots the packing collides
    assert_eq!(input(0, 0, 1000, "x").unique_id(), input(0, 1, 0, "x").unique_id());
}
