//! Administrative actions on an address or identity, and the admin check.
use vstd::prelude::*;
use crate::access::{AdminState, BanList, after_ban, after_unban, with_verified, without_verified};
use crate::ledger::ClientLedger;
use crate::user::UserView;

verus! {

/// What an admin asks to do with an address or identity.
#[derive(Debug, Clone, Copy, PartialEq, Eq, Structural)]
pub enum IpAction {
    Ban,
    Unban,
    ResetCooldown,
    AddVerified,
    RemoveVerified,
}

/// An admin request: the address or identity, and what to do with it.
pub struct Ip {
    pub ip: String,
    pub ip_action: IpAction,
}

/// Carries out an admin request. Bans and unbans need a valid IPv4 address
/// and are ignored otherwise; a cooldown reset applies to whatever address
/// the ledger knows the client by; verified entries may be addresses or
/// credentials and are taken as they are.
pub fn ban_ip(request: &Ip, bans: &mut BanList, admin: &mut AdminState, ledger: &mut ClientLedger)
    ensures
        final(bans)@ == (match request.ip_action {
            IpAction::Ban => after_ban(old(bans)@, request.ip@),
            IpAction::Unban => after_unban(old(bans)@, request.ip@),
            _ => old(bans)@,
        }),
        final(admin)@ == (match request.ip_action {
            IpAction::AddVerified => with_verified(old(admin)@, request.ip@),
            IpAction::RemoveVerified => without_verified(old(admin)@, request.ip@),
            _ => old(admin)@,
        }),
        final(ledger)@ == (if request.ip_action == IpAction::ResetCooldown && old(ledger)@.contains_key(request.ip@) {
            old(ledger)@.insert(request.ip@, UserView { last_time_post: 0, ..old(ledger)@[request.ip@] })
        } else {
            old(ledger)@
        }),
        final(ledger).cooldown_spec() == old(ledger).cooldown_spec(),
{
    match request.ip_action {
        IpAction::Ban => bans.ban(&request.ip),
        IpAction::Unban => bans.unban(&request.ip),
        IpAction::ResetCooldown => ledger.admin_reset_cooldown(&request.ip),
        IpAction::AddVerified => admin.add_verified(&request.ip),
        IpAction::RemoveVerified => admin.remove_verified(&request.ip),
    }
}

/// Whether a visitor logged in under `login`, if at all, is an admin.
pub fn check_is_admin(admin: &AdminState, login: Option<&String>) -> (r: bool)
    ensures
        r == (login matches Some(c) && admin@.admin_hashes.contains(c@)),
{
    match login {
        Some(c) => admin.is_admin(c),
        None => false,
    }
}

/// Proof that a request came from an admin: the admin credential it used.
pub struct IsAdminGuard(String);

impl IsAdminGuard {
    /// Admits a visitor logged in under an admin credential.
    pub fn check(admin: &AdminState, login: Option<&String>) -> (r: Option<IsAdminGuard>)
        ensures
            r is Some <==> (login matches Some(c) && admin@.admin_hashes.contains(c@)),
            r matches Some(g) ==> login matches Some(c) && g.credential() == c@,
    {
        match login {
            Some(c) => {
                if admin.is_admin(c) {
                    Some(IsAdminGuard(c.clone()))
                } else {
                    None
                }
            },
            None => None,
        }
    }

    /// The admin credential the request used.
    pub closed spec fn credential(&self) -> Seq<char> {
        self.0@
    }

    /// The admin credential the request used.
    pub fn value(&self) -> (r: &String)
        ensures
            r@ == self.credential(),
    {
        &self.0
    }
}

} // verus!
