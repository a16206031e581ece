use rirc_slack::users::{display_name, get_username, register_username, Usernames};

#[test]
fn unknown_user_has_no_name() {
    let usernames = Usernames::new();
    assert_eq!(get_username(&usernames, "U01"), None);
}

#[test]
fn registered_user_is_found() {
    let mut usernames = Usernames::new();
    register_username(&mut usernames, "U01".to_owned(), "alice".to_owned());
    register_username(&mut usernames, "U02".to_owned(), "bob".to_owned());
    assert_eq!(get_username(&usernames, "U01"), Some("alice".to_owned()));
    assert_eq!(get_username(&usernames, "U02"), Some("bob".to_owned()));
    assert_eq!(get_username(&usernames, "U03"), None);
}

#[test]
fn registering_again_replaces_the_name() {
    let mut usernames = Usernames::new();
    register_username(&mut usernames, "U01".to_owned(), "alice".to_owned());
    register_username(&mut usernames, "U01".to_owned(), "alicia".to_owned());
    assert_eq!(get_username(&usernames, "U01"), Some("alicia".to_owned()));
}

#[test]
fn display_name_falls_back_to_the_id() {
    let mut usernames = Usernames::new();
    register_username(&mut usernames, "U01".to_owned(), "alice".to_owned());
    assert_eq!(display_name(&usernames, "U01"), "alice");
    assert_eq!(display_name(&usernames, "U99"), "U99");
}
