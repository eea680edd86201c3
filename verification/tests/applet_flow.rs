use openvpn3_status::applet::{
    AppState, Command, DialogState, DynamicConnectDialog, Message, OpenVpn3Status,
    AUTO_REFRESH_INTERVAL_SECS, REQUIREMENTS_POLL_DELAY_MS,
};
use openvpn3_status::types::{ConnectionStatus, CredentialInput, Profile, ProfileMetadata};

fn profile(name: &str, status: ConnectionStatus) -> Profile {
    Profile {
        name: name.to_string(),
        path: format!("/net/openvpn/v3/configuration/{}", name),
        status,
        metadata: ProfileMetadata {
            valid: true,
            imported: "unknown".to_string(),
            last_used: "never".to_string(),
            use_count: 0,
        },
    }
}

fn input(id: u32, name: &str) -> CredentialInput {
    CredentialInput {
        id,
        input_type: 1,
        input_group: 2,
        name: name.to_string(),
        description: String::new(),
        hidden: name == "Password",
    }
}

fn loaded(profiles: Vec<Profile>) -> OpenVpn3Status {
    let mut app = OpenVpn3Status::new();
    app.update(Message::ProfilesLoaded(Ok(profiles)));
    app
}

fn profile_names(app: &OpenVpn3Status) -> Vec<String> {
    match &app.state {
        AppState::Available { profiles, .. } => profiles.iter().map(|p| p.name.clone()).collect(),
        AppState::Unavailable => Vec::new(),
    }
}

fn dialog(app: &OpenVpn3Status) -> &DialogState {
    match &app.state {
        AppState::Available { dialog, .. } => dialog,
        AppState::Unavailable => panic!("no dialog while unavailable"),
    }
}

#[test]
fn toggling_popup_opens_then_closes_it() {
    let mut app = OpenVpn3Status::new();
    let cmds = app.update(Message::TogglePopup { new_popup: 7 });
    assert_eq!(app.popup, Some(7));
    assert!(matches!(cmds.as_slice(), [Command::OpenPopup(7), Command::RetryInitialization]));
    let cmds = app.update(Message::TogglePopup { new_popup: 8 });
    assert_eq!(app.popup, None);
    assert!(matches!(cmds.as_slice(), [Command::DestroyPopup(7)]));

    let mut app = loaded(Vec::new());
    let cmds = app.update(Message::TogglePopup { new_popup: 1 });
    assert!(matches!(cmds.as_slice(), [Command::OpenPopup(1), Command::FetchProfiles]));
}

#[test]
fn popup_closed_only_forgets_the_matching_popup() {
    let mut app = OpenVpn3Status::new();
    app.update(Message::TogglePopup { new_popup: 3 });
    assert!(app.update(Message::PopupClosed(4)).is_empty());
    assert_eq!(app.popup, Some(3));
    app.update(Message::PopupClosed(3));
    assert_eq!(app.popup, None);
}

#[test]
fn loading_profiles_makes_the_applet_available_and_schedules_refresh_while_connecting() {
    let mut app = OpenVpn3Status::new();
    assert!(!app.icon_filled());
    let cmds = app.update(Message::ProfilesLoaded(Ok(vec![profile("work", ConnectionStatus::Connecting)])));
    assert!(matches!(cmds.as_slice(), [Command::RefreshAfter { secs }] if *secs == AUTO_REFRESH_INTERVAL_SECS));
    assert_eq!(AUTO_REFRESH_INTERVAL_SECS, 3);
    // connecting is not yet a connection: the icon stays an outline
    assert!(!app.icon_filled());
    app.update(Message::ProfilesLoaded(Ok(vec![
        profile("home", ConnectionStatus::Disconnected),
        profile("work", ConnectionStatus::Connected),
    ])));
    assert!(app.icon_filled());
    let cmds = app.update(Message::ProfilesLoaded(Ok(vec![profile("work", ConnectionStatus::Failed)])));
    assert!(cmds.is_empty());
    assert!(!app.icon_filled());
    let cmds = app.update(Message::ProfilesLoaded(Err("boom".to_string())));
    assert!(cmds.is_empty());
    assert_eq!(profile_names(&app), vec!["work".to_string()]);
}

#[test]
fn client_initialization_triggers_a_refresh() {
    let mut app = OpenVpn3Status::new();
    assert!(matches!(app.update(Message::ClientInitialized(true)).as_slice(), [Command::FetchProfiles]));
    assert!(app.update(Message::ClientInitialized(false)).is_empty());
    assert!(matches!(app.update(Message::AutoRefresh).as_slice(), [Command::FetchProfiles]));
    assert!(matches!(app.update(Message::RefreshProfiles).as_slice(), [Command::FetchProfiles]));
}

#[test]
fn reload_keeps_an_open_dialog() {
    let mut app = loaded(vec![profile("a", ConnectionStatus::Disconnected)]);
    app.update(Message::OpenImportDialog { new_dialog: 11 });
    app.update(Message::ProfilesLoaded(Ok(vec![profile("b", ConnectionStatus::Disconnected)])));
    assert!(matches!(dialog(&app), DialogState::Import(d) if d.id == 11));
    assert_eq!(profile_names(&app), vec!["b".to_string()]);
}

#[test]
fn delete_and_disconnect_only_without_dialog() {
    let mut app = loaded(vec![profile("a", ConnectionStatus::Connected), profile("b", ConnectionStatus::Disconnected)]);
    assert!(matches!(app.update(Message::DeleteProfile("b".into())).as_slice(), [Command::DeleteProfile(n)] if n == "b"));
    assert!(matches!(app.update(Message::DisconnectSession("a".into())).as_slice(), [Command::DisconnectProfile(n)] if n == "a"));
    app.update(Message::OpenImportDialog { new_dialog: 1 });
    assert!(app.update(Message::DeleteProfile("b".into())).is_empty());
    assert!(app.update(Message::DisconnectSession("a".into())).is_empty());
    assert!(app.update(Message::OpenImportDialog { new_dialog: 2 }).is_empty());
    assert!(matches!(dialog(&app), DialogState::Import(d) if d.id == 1));
}

#[test]
fn deleted_profile_is_removed_from_the_list() {
    let mut app = loaded(vec![
        profile("a", ConnectionStatus::Disconnected),
        profile("b", ConnectionStatus::Disconnected),
        profile("c", ConnectionStatus::Disconnected),
    ]);
    app.update(Message::ProfileDeleted("b".into(), Err("denied".into())));
    assert_eq!(profile_names(&app).len(), 3);
    app.update(Message::ProfileDeleted("b".into(), Ok(())));
    assert_eq!(profile_names(&app), vec!["a".to_string(), "c".to_string()]);
}

#[test]
fn import_dialog_flow() {
    let mut app = loaded(Vec::new());
    app.update(Message::OpenImportDialog { new_dialog: 5 });
    app.update(Message::CloseImportDialog(6));
    assert!(matches!(dialog(&app), DialogState::Import(_)));
    assert!(app.update(Message::SubmitImport).is_empty());
    app.update(Message::ImportFilePathChanged("  /tmp/work.ovpn ".into()));
    app.update(Message::ImportCustomNameChanged("   ".into()));
    let cmds = app.update(Message::SubmitImport);
    assert!(matches!(cmds.as_slice(), [Command::ImportConfig { file_path, name: None }] if file_path == "  /tmp/work.ovpn "));
    assert!(matches!(dialog(&app), DialogState::Default));

    app.update(Message::OpenImportDialog { new_dialog: 9 });
    app.update(Message::ImportFilePathChanged("/tmp/a.ovpn".into()));
    app.update(Message::ImportCustomNameChanged("  Office ".into()));
    let cmds = app.update(Message::SubmitImport);
    assert!(matches!(cmds.as_slice(), [Command::ImportConfig { name: Some(n), .. }] if n == "Office"));

    app.update(Message::OpenImportDialog { new_dialog: 10 });
    app.update(Message::CloseImportDialog(10));
    assert!(matches!(dialog(&app), DialogState::Default));
    assert!(matches!(app.update(Message::ConfigImported(Ok("x".into()))).as_slice(), [Command::FetchProfiles]));
    assert!(app.update(Message::ConfigImported(Err("x".into()))).is_empty());
}

#[test]
fn credential_flow_from_tunnel_to_connect() {
    let mut app = loaded(vec![profile("work", ConnectionStatus::Disconnected)]);
    assert!(matches!(app.update(Message::StartTunnelCreation("work".into())).as_slice(), [Command::CreateTunnel(n)] if n == "work"));
    let cmds = app.update(Message::TunnelCreated("work".into(), Ok("/s/1".into())));
    assert!(matches!(cmds.as_slice(), [Command::CheckRequirementsAfter { profile_name, session_path, delay_ms }]
        if profile_name == "work" && session_path == "/s/1" && *delay_ms == REQUIREMENTS_POLL_DELAY_MS));
    assert!(matches!(dialog(&app), DialogState::WaitingForCredentialRequirements { profile_name, session_path }
        if profile_name == "work" && session_path == "/s/1"));
    let cmds = app.update(Message::CheckCredentialRequirements("work".into(), "/s/1".into()));
    assert!(matches!(cmds.as_slice(), [Command::QueryRequiredInputs { .. }]));
    app.update(Message::CredentialRequirementsFetched {
        profile_name: "work".into(),
        session_path: "/s/1".into(),
        result: Ok(vec![input(0, "Username"), input(1, "Password")]),
        new_dialog: 21,
    });
    assert!(matches!(dialog(&app), DialogState::DynamicConnect(d) if d.id == 21 && d.required_inputs.len() == 2));
    app.update(Message::DynamicInputChanged(1_002_000, "alice".into()));
    assert!(app.update(Message::SubmitDynamicCredentials).is_empty());
    app.update(Message::DynamicInputChanged(1_002_001, "   ".into()));
    assert!(app.update(Message::SubmitDynamicCredentials).is_empty());
    app.update(Message::DynamicInputChanged(1_002_001, "secret".into()));
    let cmds = app.update(Message::SubmitDynamicCredentials);
    match cmds.as_slice() {
        [Command::ProvideCredentialsAndConnect { session_path, credentials }] => {
            assert_eq!(session_path, "/s/1");
            assert_eq!(credentials.values.get(&1_002_000).map(String::as_str), Some("alice"));
            assert_eq!(credentials.values.get(&1_002_001).map(String::as_str), Some("secret"));
            assert_eq!(credentials.values.len(), 2);
        }
        other => panic!("unexpected {:?}", other),
    }
    assert!(matches!(dialog(&app), DialogState::Default));
    assert!(matches!(app.update(Message::DynamicCredentialsProvided(Ok(()))).as_slice(), [Command::FetchProfiles]));
    assert!(app.update(Message::DynamicCredentialsProvided(Err("no".into()))).is_empty());
}

#[test]
fn failed_steps_of_the_credential_flow() {
    let mut app = loaded(Vec::new());
    assert!(app.update(Message::TunnelCreated("work".into(), Err("no".into()))).is_empty());
    assert!(matches!(dialog(&app), DialogState::Default));
    app.update(Message::TunnelCreated("work".into(), Ok("/s/2".into())));
    app.update(Message::CredentialRequirementsFetched {
        profile_name: "work".into(),
        session_path: "/s/2".into(),
        result: Err("gone".into()),
        new_dialog: 1,
    });
    assert!(matches!(dialog(&app), DialogState::Default));
}

#[test]
fn cancelling_closes_the_dialog_and_the_session() {
    let mut app = loaded(Vec::new());
    app.update(Message::TunnelCreated("work".into(), Ok("/s/3".into())));
    let cmds = app.update(Message::CancelDynamicConnect("/s/3".into()));
    assert!(matches!(cmds.as_slice(), [Command::CancelSession(p)] if p == "/s/3"));
    assert!(matches!(dialog(&app), DialogState::Default));
    assert!(matches!(app.update(Message::SessionCancelled(Err("closed".into()))).as_slice(), [Command::FetchProfiles]));
    assert!(matches!(app.update(Message::SessionCancelled(Ok(()))).as_slice(), [Command::FetchProfiles]));
}

#[test]
fn session_disconnected_refreshes_on_success() {
    let mut app = loaded(Vec::new());
    assert!(matches!(app.update(Message::SessionDisconnected("a".into(), Ok(()))).as_slice(), [Command::FetchProfiles]));
    assert!(app.update(Message::SessionDisconnected("a".into(), Err("x".into()))).is_empty());
}

#[test]
fn dialog_validity_and_credentials() {
    let mut d = DynamicConnectDialog::new(1, "p".into(), "/s".into(), vec![input(3, "Token")]);
    assert!(!d.is_valid());
    d.input_values.insert(1_002_003, "\t".into());
    assert!(!d.is_valid());
    d.input_values.insert(1_002_003, "42".into());
    assert!(d.is_valid());
    let creds = d.build_credentials();
    assert_eq!(creds.values, d.input_values);
}

#[test]
fn messages_while_unavailable_change_nothing() {
    let mut app = OpenVpn3Status::new();
    app.update(Message::OpenImportDialog { new_dialog: 1 });
    app.update(Message::TunnelCreated("x".into(), Ok("/s".into())));
    app.update(Message::ProfileDeleted("x".into(), Ok(())));
    assert!(matches!(app.state, AppState::Unavailable));
    assert!(app.update(Message::DeleteProfile("x".into())).is_empty());
}
