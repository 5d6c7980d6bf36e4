use thank_you_rocket::access::{AdminOutcome, AdminState, BanList};
use thank_you_rocket::admin::{ban_ip, check_is_admin, Ip, IpAction, IsAdminGuard};
use thank_you_rocket::ledger::ClientLedger;
use thank_you_rocket::verified_guard::{GetVerifiedGuard, RequireVerifiedGuard};

fn s(x: &str) -> String {
    x.to_string()
}

#[test]
fn admin_bootstrap_first_credential_wins() {
    let mut admin = AdminState::new();
    assert_eq!(admin.bootstrap_or_check(&s("pw1")), AdminOutcome::BecameAdmin);
    assert!(admin.is_admin(&s("pw1")));
    assert!(admin.admin_created);
    assert_eq!(admin.bootstrap_or_check(&s("pw2")), AdminOutcome::NotAdmin);
    assert!(!admin.is_admin(&s("pw2")));
    assert_eq!(admin.bootstrap_or_check(&s("pw1")), AdminOutcome::AlreadyAdmin);
    assert_eq!(admin.admin_hashes, vec![s("pw1")]);
}

#[test]
fn ban_valid_and_invalid() {
    let mut bans = BanList::new();
    bans.ban(&s("10.0.0.5"));
    assert!(bans.is_banned(&s("10.0.0.5")));
    bans.ban(&s("not-an-ip"));
    assert_eq!(bans.ips, vec![s("10.0.0.5")]);
    assert!(!bans.is_banned(&s("not-an-ip")));
}

#[test]
fn unban_removes_every_listing() {
    let mut bans = BanList::new();
    bans.ban(&s("1.2.3.4"));
    bans.ban(&s("5.6.7.8"));
    bans.ban(&s("1.2.3.4"));
    bans.unban(&s("1.2.3.4"));
    assert_eq!(bans.ips, vec![s("5.6.7.8")]);
    assert!(!bans.is_banned(&s("1.2.3.4")));
    bans.ban(&s("bogus"));
    bans.unban(&s("bogus"));
    assert_eq!(bans.ips.len(), 1);
    bans.unban(&s("9.9.9.9"));
    assert_eq!(bans.ips.len(), 1);
}

#[test]
fn verified_list_add_and_remove() {
    let mut admin = AdminState::new();
    assert!(!admin.is_verified(&s("1.2.3.4")));
    admin.add_verified(&s("1.2.3.4"));
    admin.add_verified(&s("some-credential"));
    admin.add_verified(&s("1.2.3.4"));
    assert!(admin.is_verified(&s("1.2.3.4")));
    assert!(admin.is_verified(&s("some-credential")));
    admin.remove_verified(&s("1.2.3.4"));
    assert!(!admin.is_verified(&s("1.2.3.4")));
    assert_eq!(admin.verified_list, Some(vec![s("some-credential")]));
    assert!(admin.is_verified_request(&s("4.4.4.4"), Some(&s("some-credential"))));
    assert!(!admin.is_verified_request(&s("4.4.4.4"), None));
}

#[test]
fn admin_actions_dispatch() {
    let mut bans = BanList::new();
    let mut admin = AdminState::new();
    let mut ledger = ClientLedger::new(3600);
    let ip = s("10.1.1.1");
    ledger.record_post(&ip, s("a message"), None, 1_000_000);
    ban_ip(&Ip { ip: ip.clone(), ip_action: IpAction::Ban }, &mut bans, &mut admin, &mut ledger);
    assert!(bans.is_banned(&ip));
    ban_ip(&Ip { ip: ip.clone(), ip_action: IpAction::Unban }, &mut bans, &mut admin, &mut ledger);
    assert!(!bans.is_banned(&ip));
    assert!(!ledger.can_post(&ip, 1_000_001));
    ban_ip(&Ip { ip: ip.clone(), ip_action: IpAction::ResetCooldown }, &mut bans, &mut admin, &mut ledger);
    assert!(ledger.can_post(&ip, 1_000_001));
    let v6 = s("2001:db8::1");
    ledger.record_post(&v6, s("from v6"), None, 1_000_000);
    assert!(!ledger.can_post(&v6, 1_000_001));
    ban_ip(&Ip { ip: v6.clone(), ip_action: IpAction::ResetCooldown }, &mut bans, &mut admin, &mut ledger);
    assert!(ledger.can_post(&v6, 1_000_001));
    assert_eq!(ledger.message_texts(&v6), vec![s("from v6")]);
    ban_ip(&Ip { ip: s("cred"), ip_action: IpAction::AddVerified }, &mut bans, &mut admin, &mut ledger);
    assert!(admin.is_verified(&s("cred")));
    ban_ip(&Ip { ip: s("cred"), ip_action: IpAction::RemoveVerified }, &mut bans, &mut admin, &mut ledger);
    assert!(!admin.is_verified(&s("cred")));
    ban_ip(&Ip { ip: s("cred"), ip_action: IpAction::Ban }, &mut bans, &mut admin, &mut ledger);
    assert!(bans.ips.is_empty());
}

#[test]
fn guards() {
    let mut admin = AdminState::new();
    admin.bootstrap_or_check(&s("adminhash"));
    assert!(check_is_admin(&admin, Some(&s("adminhash"))));
    assert!(!check_is_admin(&admin, Some(&s("other"))));
    assert!(!check_is_admin(&admin, None));
    let g = IsAdminGuard::check(&admin, Some(&s("adminhash"))).unwrap();
    assert_eq!(g.value(), "adminhash");
    assert!(IsAdminGuard::check(&admin, None).is_none());
    assert!(!GetVerifiedGuard::check(&admin, &s("1.1.1.1"), None).0);
    assert!(RequireVerifiedGuard::check(&admin, &s("1.1.1.1"), None).is_none());
    admin.add_verified(&s("1.1.1.1"));
    assert!(GetVerifiedGuard::check(&admin, &s("1.1.1.1"), None).0);
    assert!(RequireVerifiedGuard::check(&admin, &s("1.1.1.1"), None).unwrap().0);
}
