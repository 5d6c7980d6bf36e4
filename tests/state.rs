use thank_you_rocket::access::AdminOutcome;
use thank_you_rocket::login::{login, login_post, login_with_credential, IsLoggedInGuard, Login, LOGIN_PAGE};
use thank_you_rocket::outcome_pages::{duplicate, error_message, paste_404, too_long, too_short};
use thank_you_rocket::state_management::{StateSave, TYRState};

fn s(x: &str) -> String {
    x.to_string()
}

#[test]
fn snapshot_round_trip() {
    let mut state = TYRState::new(3600);
    state.admin_state.bootstrap_or_check(&s("lmao not a real hash"));
    state.unique_users.record_request(&s("this ip"), &s("/"), 44);
    state.banned_ips.ban(&s("1.2.3.4"));
    state.banned_ips.ban(&s("5.6.7.8"));
    state.messages.record_post(&s("4.1.2.3"), s("lmao"), None, 5);
    state.pastes.create_text(&s("a paste of text"), &s("4.1.2.3"), None, None, false, 5).unwrap();
    let save = state.into_state_save();
    let loaded = TYRState::from_state_save(save);
    assert!(loaded.admin_state.admin_created);
    assert_eq!(loaded.admin_state.admin_hashes, vec![s("lmao not a real hash")]);
    assert_eq!(loaded.banned_ips.ips, vec![s("1.2.3.4"), s("5.6.7.8")]);
    assert_eq!(loaded.unique_users.get(&s("this ip")).unwrap().request_count, 1);
    assert_eq!(loaded.messages.message_texts(&s("4.1.2.3")), vec![s("lmao")]);
    assert_eq!(loaded.messages.cooldown(), 3600);
    assert!(loaded.pastes.get_entries().is_empty());
}

#[test]
fn capture_copies_every_registry() {
    let mut state = TYRState::new(60);
    state.messages.record_post(&s("1.1.1.1"), s("hello"), Some(s("c")), 7);
    state.banned_ips.ban(&s("2.2.2.2"));
    state.admin_state.add_verified(&s("3.3.3.3"));
    state.unique_users.record_request(&s("1.1.1.1"), &s("/a"), 7);
    let save = StateSave::capture(&state.messages, &state.banned_ips, &state.admin_state, &state.unique_users);
    state.messages.record_post(&s("1.1.1.1"), s("later"), None, 100);
    let loaded = TYRState::from_state_save(save);
    assert_eq!(loaded.messages.message_texts(&s("1.1.1.1")), vec![s("hello")]);
    assert_eq!(loaded.messages.cooldown(), 60);
    assert!(loaded.banned_ips.is_banned(&s("2.2.2.2")));
    assert!(loaded.admin_state.is_verified(&s("3.3.3.3")));
    let m = loaded.unique_users.get(&s("1.1.1.1")).unwrap();
    assert_eq!(m.previous_pages.as_ref().unwrap().get_list(), &vec![s("/a")]);
}

#[test]
fn missing_sections_read_as_empty() {
    let mut ledger_state = TYRState::new(10);
    ledger_state.messages.record_post(&s("1.1.1.1"), s("kept"), None, 1);
    let save = StateSave { messages: ledger_state.messages, banned_ips: None, admin_state: None, unique_users: None };
    let loaded = TYRState::from_state_save(save);
    assert!(!loaded.admin_state.admin_created);
    assert!(loaded.banned_ips.ips.is_empty());
    assert!(loaded.unique_users.get_entries().is_empty());
    assert!(loaded.messages.is_duplicate(&s("1.1.1.1"), &s("kept")));
}

#[test]
fn login_post_hashes_and_bootstraps() {
    let mut state = TYRState::new(10);
    let ip = s("1.2.3.4");
    state.unique_users.record_request(&ip, &s("/login"), 1);
    let salt = s("c29tZXNhbHR2YWx1ZTEyMw");
    let c1 = login_post(&Login { password: s("pw1") }, &salt, &ip, &mut state.unique_users, &mut state.admin_state).unwrap();
    assert_ne!(c1, "pw1");
    assert!(!c1.is_empty());
    assert!(state.admin_state.is_admin(&c1));
    let again = login_post(&Login { password: s("pw1") }, &salt, &ip, &mut state.unique_users, &mut state.admin_state).unwrap();
    assert_eq!(c1, again);
    let c2 = login_post(&Login { password: s("pw2") }, &salt, &ip, &mut state.unique_users, &mut state.admin_state).unwrap();
    assert_ne!(c1, c2);
    assert!(!state.admin_state.is_admin(&c2));
    assert_eq!(state.unique_users.get(&ip).unwrap().logins, Some(vec![c1.clone(), c2.clone()]));
    assert!(login_post(&Login { password: s("pw1") }, &s("short"), &ip, &mut state.unique_users, &mut state.admin_state).is_none());
    assert_eq!(state.admin_state.admin_hashes.len(), 1);
}

#[test]
fn login_with_known_credential() {
    let mut state = TYRState::new(10);
    let ip = s("1.2.3.4");
    assert_eq!(login_with_credential(&s("h1"), &ip, &mut state.unique_users, &mut state.admin_state), AdminOutcome::BecameAdmin);
    assert_eq!(login_with_credential(&s("h2"), &ip, &mut state.unique_users, &mut state.admin_state), AdminOutcome::NotAdmin);
    assert_eq!(login_with_credential(&s("h1"), &ip, &mut state.unique_users, &mut state.admin_state), AdminOutcome::AlreadyAdmin);
    assert!(IsLoggedInGuard::check(None).is_none());
    assert_eq!(IsLoggedInGuard::check(Some(&s("h1"))).unwrap().value(), "h1");
}

#[test]
fn page_texts() {
    assert_eq!(login(), LOGIN_PAGE);
    assert!(login().contains("action=\"/login\""));
    assert_eq!(too_long(), "That message is too long, please try to make it shorter :)");
    assert_eq!(too_short(), "That message is too short. :)");
    assert_eq!(duplicate(), "That message is a duplicate message.");
    assert_eq!(error_message(), "An unexpected error occurred. ¯\\_(ツ)_/¯");
    assert_eq!(paste_404(), "That paste does not exist.");
}
