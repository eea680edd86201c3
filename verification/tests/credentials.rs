use openvpn3_status::types::{ConnectionStatus, LoginCredentials};

#[test]
fn test_credentials_validation() {
    let valid = LoginCredentials::new("user", "pass");
    assert!(valid.validate().is_ok());

    let empty_user = LoginCredentials::new("", "pass");
    assert!(empty_user.validate().is_err());

    let empty_pass = LoginCredentials::new("user", "");
    assert!(empty_pass.validate().is_err());
}

#[test]
fn test_credentials_format() {
    let basic = LoginCredentials::new("user", "pass");
    assert_eq!(basic.format_for_stdin(), "user\npass\n");

    let with_totp = LoginCredentials::new("user", "pass").with_totp("123456");
    assert_eq!(with_totp.format_for_stdin(), "user\npass\n123456\n");
}

#[test]
fn test_connection_status() {
    assert!(ConnectionStatus::Connected.is_active());
    assert!(ConnectionStatus::Connecting.is_active());
    assert!(!ConnectionStatus::Disconnected.is_active());
    assert!(!ConnectionStatus::Failed.is_active());

    assert!(ConnectionStatus::Connecting.is_connecting());
    assert!(!ConnectionStatus::Connected.is_connecting());
}

#[test]
fn validation_messages_name_the_missing_field() {
    assert_eq!(
        LoginCredentials::new("", "").validate(),
        Err("Username cannot be empty".to_string())
    );
    assert_eq!(
        LoginCredentials::new("user", "").validate(),
        Err("Password cannot be empty".to_string())
    );
}

#[test]
fn status_priorities_follow_the_documented_order() {
    assert_eq!(ConnectionStatus::Connected.priority(), 3);
    assert_eq!(ConnectionStatus::Connecting.priority(), 2);
    assert_eq!(ConnectionStatus::Failed.priority(), 1);
    assert_eq!(ConnectionStatus::Disconnected.priority(), 0);
}
