use openvpn3_status::status::{
    assemble_profile, classify_status_code, find_profile, profile_status, profiles_from_records,
    status_from_dbus, ProfileRecord,
};
use openvpn3_status::error::Error;
use openvpn3_status::types::{ConnectionStatus, ProfileMetadata, Session};

fn session(path: &str, name: &str, status: ConnectionStatus) -> Session {
    Session { path: path.to_string(), profile_name: name.to_string(), status }
}

fn metadata() -> ProfileMetadata {
    ProfileMetadata { valid: true, imported: "unknown".to_string(), last_used: "never".to_string(), use_count: 0 }
}

#[test]
fn status_codes_map_to_connection_states() {
    assert_eq!(status_from_dbus(2, 4, ""), ConnectionStatus::Connecting);
    assert_eq!(status_from_dbus(2, 7, "whatever failed"), ConnectionStatus::Connected);
    assert_eq!(status_from_dbus(2, 6, ""), ConnectionStatus::Connecting);
    assert_eq!(status_from_dbus(2, 12, ""), ConnectionStatus::Connecting);
    assert_eq!(status_from_dbus(2, 15, ""), ConnectionStatus::Connecting);
    assert_eq!(status_from_dbus(2, 10, ""), ConnectionStatus::Failed);
    assert_eq!(status_from_dbus(2, 11, ""), ConnectionStatus::Failed);
    assert_eq!(status_from_dbus(2, 8, ""), ConnectionStatus::Disconnected);
    assert_eq!(status_from_dbus(2, 9, ""), ConnectionStatus::Disconnected);
    assert_eq!(status_from_dbus(2, 16, ""), ConnectionStatus::Disconnected);
}

#[test]
fn status_messages_decide_the_other_codes() {
    assert_eq!(status_from_dbus(3, 1, "Auth FAILED"), ConnectionStatus::Failed);
    assert_eq!(status_from_dbus(3, 1, "some Error"), ConnectionStatus::Failed);
    assert_eq!(status_from_dbus(3, 1, "connecting"), ConnectionStatus::Disconnected);
    assert_eq!(status_from_dbus(1, 0, "Connecting"), ConnectionStatus::Connecting);
    assert_eq!(status_from_dbus(2, 99, "error while connecting"), ConnectionStatus::Failed);
    assert_eq!(status_from_dbus(0, 0, "idle"), ConnectionStatus::Disconnected);
    assert_eq!(classify_status_code(1, 0, "CONNECTING"), ConnectionStatus::Disconnected);
}

#[test]
fn profile_status_takes_the_highest_ranked_session() {
    let sessions = vec![
        session("/s/1", "work", ConnectionStatus::Failed),
        session("/s/2", "work", ConnectionStatus::Connected),
        session("/s/3", "work", ConnectionStatus::Connecting),
        session("/s/4", "home", ConnectionStatus::Connecting),
    ];
    assert_eq!(profile_status(&sessions, "work"), ConnectionStatus::Connected);
    assert_eq!(profile_status(&sessions, "home"), ConnectionStatus::Connecting);
    assert_eq!(profile_status(&sessions, "other"), ConnectionStatus::Disconnected);
    let failed_only = vec![session("/s/1", "x", ConnectionStatus::Disconnected), session("/s/2", "x", ConnectionStatus::Failed)];
    assert_eq!(profile_status(&failed_only, "x"), ConnectionStatus::Failed);
}

#[test]
fn assembled_profiles_carry_their_status() {
    let sessions = vec![session("/s/1", "work", ConnectionStatus::Connected)];
    let p = assemble_profile("work".to_string(), "/c/1".to_string(), metadata(), &sessions);
    assert_eq!(p.status, ConnectionStatus::Connected);
    assert_eq!(p.path, "/c/1");
    let records = vec![
        ProfileRecord { path: "/c/1".to_string(), name: "work".to_string(), metadata: metadata() },
        ProfileRecord { path: "/c/2".to_string(), name: "home".to_string(), metadata: metadata() },
    ];
    let ps = profiles_from_records(records, &sessions);
    assert_eq!(ps.len(), 2);
    assert_eq!(ps[0].name, "work");
    assert_eq!(ps[0].status, ConnectionStatus::Connected);
    assert_eq!(ps[1].name, "home");
    assert_eq!(ps[1].status, ConnectionStatus::Disconnected);
}

#[test]
fn find_profile_returns_the_first_match_or_not_found() {
    let sessions = Vec::new();
    let ps = vec![
        assemble_profile("a".to_string(), "/c/1".to_string(), metadata(), &sessions),
        assemble_profile("b".to_string(), "/c/2".to_string(), metadata(), &sessions),
        assemble_profile("b".to_string(), "/c/3".to_string(), metadata(), &sessions),
    ];
    let found = find_profile(ps.clone(), "b").unwrap();
    assert_eq!(found.path, "/c/2");
    match find_profile(ps, "c") {
        Err(Error::ProfileNotFound(name)) => assert_eq!(name, "c"),
        other => panic!("unexpected {:?}", other),
    }
}

#[test]
fn sessions_of_other_profiles_do_not_matter() {
    let mut sessions = vec![session("/s/1", "work", ConnectionStatus::Connecting)];
    let before = profile_status(&sessions, "work");
    sessions.push(session("/s/2", "home", ConnectionStatus::Connected));
    assert_eq!(profile_status(&sessions, "work"), before);
    assert_eq!(before, ConnectionStatus::Connecting);
}
