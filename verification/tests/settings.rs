use rirc_slack::settings::{Settings, UserProfile};

#[test]
fn default_settings_have_no_token_and_no_profiles() {
    let settings = Settings::default();
    assert_eq!(settings.irc_listen_addr, "0.0.0.0:8080");
    assert_eq!(settings.slack_app_listen_addr, "0.0.0.0:8080");
    assert_eq!(settings.slack_app_verif_token, "");
    assert!(settings.user_profiles.is_empty());
    assert!(settings.profile("alice").is_none());
}

#[test]
fn profile_is_found_by_its_name() {
    let mut settings = Settings::default();
    settings.user_profiles.push(UserProfile {
        name: "alice".to_owned(),
        slack_token: "xoxp-1".to_owned(),
    });
    settings.user_profiles.push(UserProfile {
        name: "bob".to_owned(),
        slack_token: "xoxp-2".to_owned(),
    });
    settings.user_profiles.push(UserProfile {
        name: "alice".to_owned(),
        slack_token: "xoxp-3".to_owned(),
    });
    assert_eq!(settings.profile("alice").unwrap().slack_token, "xoxp-3");
    assert_eq!(settings.profile("bob").unwrap().slack_token, "xoxp-2");
    assert!(settings.profile("carol").is_none());
    assert!(settings.profile("").is_none());
    let copy = settings.profile("bob").unwrap().clone();
    assert_eq!(copy.name, "bob");
}
