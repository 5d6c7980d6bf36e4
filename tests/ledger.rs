use thank_you_rocket::ledger::{ClientLedger, PostOutcome};
use thank_you_rocket::message::NewMessage;
use thank_you_rocket::user::User;
use thank_you_rocket::message::Message;

fn s(x: &str) -> String {
    x.to_string()
}

#[test]
fn cooldown_after_post() {
    let mut ledger = ClientLedger::new(60);
    let ip = s("1.2.3.4");
    assert!(ledger.can_post(&ip, 1000));
    ledger.record_post(&ip, s("hello there"), None, 1000);
    assert!(!ledger.can_post(&ip, 1000));
    assert!(!ledger.can_post(&ip, 1059));
    assert!(ledger.can_post(&ip, 1060));
    assert!(!ledger.can_post(&ip, 999));
    assert_eq!(ledger.cooldown_remaining(&ip, 1010), 50);
    assert_eq!(ledger.cooldown_remaining(&ip, 1060), 0);
    assert!(ledger.can_post(&s("5.6.7.8"), 1000));
}

#[test]
fn duplicate_is_per_client() {
    let mut ledger = ClientLedger::new(0);
    let a = s("1.1.1.1");
    let b = s("2.2.2.2");
    ledger.record_post(&a, s("same text"), None, 10);
    assert!(ledger.is_duplicate(&a, &s("same text")));
    assert!(!ledger.is_duplicate(&b, &s("same text")));
    assert!(!ledger.is_duplicate(&a, &s("other text")));
    ledger.record_post(&b, s("same text"), None, 11);
    assert!(ledger.is_duplicate(&b, &s("same text")));
}

#[test]
fn admin_reset_clears_cooldown() {
    let mut ledger = ClientLedger::new(3600);
    let ip = s("9.9.9.9");
    ledger.record_post(&ip, s("first message"), None, 5000);
    assert!(!ledger.can_post(&ip, 5001));
    ledger.admin_reset_cooldown(&ip);
    assert!(ledger.can_post(&ip, 5001));
    assert_eq!(ledger.get(&ip).unwrap().last_time_post, 0);
    let other = s("8.8.8.8");
    ledger.admin_reset_cooldown(&other);
    assert!(ledger.get(&other).is_none());
}

#[test]
fn submit_message_outcomes() {
    let mut ledger = ClientLedger::new(100);
    let ip = s("3.3.3.3");
    let msg = |t: &str| NewMessage { msg: t.to_string() };
    assert_eq!(ledger.submit_message(&msg("héllo there"), &ip, None, false, 0), PostOutcome::NotAscii);
    assert_eq!(ledger.submit_message(&msg(&"x".repeat(151)), &ip, None, false, 0), PostOutcome::TooLong);
    assert_eq!(ledger.submit_message(&msg("hi"), &ip, None, false, 0), PostOutcome::TooShort);
    assert!(ledger.get(&ip).is_none());
    assert_eq!(ledger.submit_message(&msg("hey"), &ip, None, false, 0), PostOutcome::Posted);
    assert_eq!(ledger.submit_message(&msg("hello again"), &ip, None, false, 50), PostOutcome::TooSoon);
    assert_eq!(ledger.submit_message(&msg("hey"), &ip, None, false, 200), PostOutcome::Duplicate);
    assert_eq!(ledger.submit_message(&msg(&"x".repeat(150)), &ip, None, false, 200), PostOutcome::Posted);
    assert_eq!(ledger.get(&ip).unwrap().messages.len(), 2);
    assert_eq!(ledger.submit_message(&msg("ü"), &s("4.4.4.4"), None, true, 0), PostOutcome::Posted);
}

#[test]
fn visibility_by_credential_and_ip() {
    let mut ledger = ClientLedger::new(0);
    let a = s("1.0.0.1");
    let b = s("1.0.0.2");
    ledger.record_post(&a, s("public a"), None, 1);
    ledger.record_post(&a, s("secret a"), Some(s("cred")), 2);
    ledger.record_post(&b, s("secret b"), Some(s("cred")), 3);
    ledger.record_post(&b, s("other b"), Some(s("other")), 4);
    let seen: Vec<String> = ledger.visible_messages(&a, Some(&s("cred"))).into_iter().map(|m| m.text).collect();
    assert_eq!(seen, vec![s("secret a"), s("secret b")]);
    let seen: Vec<String> = ledger.visible_messages(&a, None).into_iter().map(|m| m.text).collect();
    assert_eq!(seen, vec![s("public a")]);
    assert!(ledger.visible_messages(&b, None).is_empty());
    assert!(ledger.visible_messages(&s("7.7.7.7"), None).is_empty());
    assert_eq!(ledger.message_texts(&b), vec![s("secret b"), s("other b")]);
}

#[test]
fn record_post_sets_fields() {
    let mut ledger = ClientLedger::new(5);
    let ip = s("6.6.6.6");
    ledger.record_post(&ip, s("text one"), Some(s("h")), 42);
    let u = ledger.get(&ip).unwrap();
    assert_eq!(u.last_time_post, 42);
    assert_eq!(u.messages[0].text, "text one");
    assert_eq!(u.messages[0].time_stamp, 42);
    assert_eq!(u.messages[0].user_hash, Some(s("h")));
    assert_eq!(ledger.cooldown(), 5);
}

#[test]
fn user_record_operations() {
    let m = Message { text: s("first"), time_stamp: 1, user_hash: None };
    let mut u = User::new(m, 1);
    assert!(!u.can_post(2, 10));
    assert!(u.can_post(11, 10));
    u.push(s("second"), Some(s("c")), 20);
    assert_eq!(u.last_time_post, 20);
    assert!(u.is_dupe_message(&s("first")));
    assert!(!u.is_dupe_message(&s("third")));
    let c = u.copy();
    assert_eq!(c.messages.len(), 2);
    assert_eq!(c.messages[1].user_hash, Some(s("c")));
    let mut ledger = ClientLedger::new(0);
    ledger.insert_user(s("1.2.3.4"), c);
    assert!(ledger.is_duplicate(&s("1.2.3.4"), &s("second")));
}
