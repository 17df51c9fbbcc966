use maypop::auth::{after_poll, before_poll, default_device_name, poll_interval, AuthError, AuthStep, TokenResponse};
use maypop::credentials::CredentialUser;

#[test]
fn device_name_has_a_stable_fallback() {
    assert!(!default_device_name(None, None).trim().is_empty());
    assert_eq!(default_device_name(None, None), "Maypop CLI");
    assert_eq!(
        default_device_name(Some("ana".into()), Some("laptop".into())),
        "ana@laptop"
    );
    assert_eq!(default_device_name(Some("ana".into()), None), "Maypop CLI");
    assert_eq!(default_device_name(None, Some("laptop".into())), "laptop");
}

#[test]
fn polling_waits_at_least_a_second_and_stops_at_the_deadline() {
    assert_eq!(poll_interval(0), 1);
    assert_eq!(poll_interval(5), 5);
    assert!(matches!(before_poll(false, 3), AuthStep::Wait { seconds: 3 }));
    assert!(matches!(before_poll(true, 3), AuthStep::Failed(AuthError::Expired)));
    assert!(matches!(
        after_poll("https://api.example", TokenResponse::Pending { interval: 0 }),
        AuthStep::Wait { seconds: 1 }
    ));
    assert!(matches!(
        after_poll("https://api.example", TokenResponse::Expired),
        AuthStep::Failed(AuthError::Expired)
    ));
}

#[test]
fn an_approved_login_is_saved_for_the_trimmed_origin() {
    let user = CredentialUser {
        id: "00000000-0000-0000-0000-000000000001".into(),
        username: "gustavo".into(),
        name: Some("Gustavo".into()),
        email: "gustavo@example.com".into(),
        git_user_id: "user_gustavo".into(),
        git_server_url: "https://api.app.maypop.ai/git".into(),
    };
    let step = after_poll(
        "https://api.app.maypop.ai//",
        TokenResponse::Complete {
            token: "mpat_secret".into(),
            expires_at: "2027-01-01T00:00:00Z".into(),
            user,
        },
    );
    match step {
        AuthStep::Done(credentials) => {
            assert_eq!(credentials.api_url, "https://api.app.maypop.ai");
            assert_eq!(credentials.token, "mpat_secret");
            assert_eq!(credentials.expires_at, "2027-01-01T00:00:00Z");
            assert_eq!(credentials.user.username, "gustavo");
        }
        other => panic!("unexpected step {other:?}"),
    }
}

#[test]
fn blank_hosts_fall_back_to_the_fixed_name() {
    assert_eq!(default_device_name(None, Some("  ".into())), "Maypop CLI");
    assert_eq!(default_device_name(None, Some(String::new())), "Maypop CLI");
    assert_eq!(default_device_name(Some("ana".into()), Some(String::new())), "ana@");
}
