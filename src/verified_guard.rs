//! Whether a request comes from a verified visitor.
use vstd::prelude::*;
use crate::access::{AdminState, verified_in};

verus! {

/// Whether the visitor is verified, for pages that show more to verified visitors.
pub struct GetVerifiedGuard(pub bool);

impl GetVerifiedGuard {
    /// Looks up a visitor from `ip`, logged in under `login` if at all.
    pub fn check(admin: &AdminState, ip: &String, login: Option<&String>) -> (r: GetVerifiedGuard)
        ensures
            r.0 == ((login matches Some(c) && verified_in(admin@, c@)) || verified_in(admin@, ip@)),
    {
        GetVerifiedGuard(admin.is_verified_request(ip, login))
    }
}

/// Admits verified visitors only, for pages that only they may use.
pub struct RequireVerifiedGuard(pub bool);

impl RequireVerifiedGuard {
    /// Admits a visitor from `ip`, logged in under `login` if at all, when
    /// its credential or its address is verified.
    pub fn check(admin: &AdminState, ip: &String, login: Option<&String>) -> (r: Option<RequireVerifiedGuard>)
        ensures
            r is Some <==> ((login matches Some(c) && verified_in(admin@, c@)) || verified_in(admin@, ip@)),
            r matches Some(g) ==> g.0,
    {
        if admin.is_verified_request(ip, login) {
            Some(RequireVerifiedGuard(true))
        } else {
            None
        }
    }
}

} // verus!
