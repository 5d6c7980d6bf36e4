//! Who may administer the service, which addresses are banned, and which
//! addresses or credentials are verified.
use vstd::prelude::*;
use crate::common::{is_ip_valid, valid_ipv4};

verus! {

/// The first index at which `x` occurs in `s`; meaningful when it occurs.
pub open spec fn first_index(s: Seq<Seq<char>>, x: Seq<char>) -> int {
    choose|i: int| 0 <= i < s.len() && s[i] == x && forall|j: int| 0 <= j < i ==> #[trigger] s[j] != x
}

/// Whether a string differs from `x`.
pub open spec fn differs_from(x: Seq<char>) -> spec_fn(Seq<char>) -> bool {
    |s: Seq<char>| s != x
}

/// The characters of each string of `v`.
pub open spec fn strings_view(v: Seq<String>) -> Seq<Seq<char>> {
    v.map_values(|s: String| s@)
}

/// Looks for `x` in `v`; the result is its first index.
pub fn position_of(v: &Vec<String>, x: &String) -> (r: Option<usize>)
    ensures
        r is None <==> !strings_view(v@).contains(x@),
        r matches Some(i) ==> i < v@.len() && i == first_index(strings_view(v@), x@),
{
    let ghost sv = strings_view(v@);
    let mut i: usize = 0;
    while i < v.len()
        invariant
            i <= v@.len(),
            sv == strings_view(v@),
            forall|j: int| 0 <= j < i ==> #[trigger] sv[j] != x@,
        decreases v@.len() - i,
    {
        if v[i] == *x {
            proof {
                assert(sv[i as int] == x@);
                let k = first_index(sv, x@);
                assert(0 <= i < sv.len() && sv[i as int] == x@ && forall|j: int| 0 <= j < i ==> #[trigger] sv[j] != x@);
                if k < i {
                    assert(sv[k] != x@);
                } else if k > i {
                    assert(sv[i as int] != x@);
                }
            }
            return Some(i);
        }
        i = i + 1;
    }
    proof {
        if sv.contains(x@) {
            let k = choose|k: int| 0 <= k < sv.len() && sv[k] == x@;
            assert(sv[k] != x@);
        }
    }
    None
}

/// A copy of a list of strings.
pub fn copy_strings(v: &Vec<String>) -> (r: Vec<String>)
    ensures
        strings_view(r@) == strings_view(v@),
{
    let mut r: Vec<String> = Vec::new();
    let mut i: usize = 0;
    while i < v.len()
        invariant
            i <= v@.len(),
            r@.len() == i,
            forall|j: int| 0 <= j < i ==> (#[trigger] r@[j])@ == v@[j]@,
        decreases v@.len() - i,
    {
        r.push(v[i].clone());
        i = i + 1;
    }
    assert(strings_view(r@) =~= strings_view(v@));
    r
}

/// `v` without any string equal to `x`, the others in order.
pub fn without_all(v: &Vec<String>, x: &String) -> (r: Vec<String>)
    ensures
        strings_view(r@) == strings_view(v@).filter(differs_from(x@)),
{
    let ghost lv = strings_view(v@);
    let ghost pred = differs_from(x@);
    let mut kept: Vec<String> = Vec::new();
    let mut i: usize = 0;
    while i < v.len()
        invariant
            i <= v@.len(),
            lv == strings_view(v@),
            pred == differs_from(x@),
            strings_view(kept@) == lv.take(i as int).filter(pred),
        decreases v@.len() - i,
    {
        let ghost prev = kept@;
        proof {
            assert(lv.take(i + 1) =~= lv.take(i as int).push(lv[i as int]));
            lv.take(i as int).lemma_filter_push(lv[i as int], pred);
        }
        if v[i] != *x {
            kept.push(v[i].clone());
            assert(strings_view(kept@) =~= strings_view(prev).push(lv[i as int]));
        }
        i = i + 1;
    }
    assert(lv.take(i as int) =~= lv);
    kept
}

/// The ban list after a request to unban `ip`: every listing of a valid
/// IPv4 address is taken away.
pub open spec fn after_unban(bans: Seq<Seq<char>>, ip: Seq<char>) -> Seq<Seq<char>> {
    if valid_ipv4(ip) {
        bans.filter(differs_from(ip))
    } else {
        bans
    }
}

/// The ban list after a request to ban `ip`: only a valid IPv4 address is added.
pub open spec fn after_ban(bans: Seq<Seq<char>>, ip: Seq<char>) -> Seq<Seq<char>> {
    if valid_ipv4(ip) {
        bans.push(ip)
    } else {
        bans
    }
}

/// The addresses that may not use the service. An address banned twice is
/// listed twice; an unban takes every listing away.
pub struct BanList {
    pub ips: Vec<String>,
}

impl View for BanList {
    type V = Seq<Seq<char>>;

    open spec fn view(&self) -> Seq<Seq<char>> {
        strings_view(self.ips@)
    }
}

impl BanList {
    /// No address banned.
    pub fn new() -> (r: Self)
        ensures
            r@ == Seq::<Seq<char>>::empty(),
    {
        let r = BanList { ips: Vec::new() };
        assert(r@ =~= Seq::<Seq<char>>::empty());
        r
    }

    /// A copy of the list.
    pub fn copy(&self) -> (r: BanList)
        ensures
            r@ == self@,
    {
        BanList { ips: copy_strings(&self.ips) }
    }

    /// Whether `ip` is banned.
    pub fn is_banned(&self, ip: &String) -> (r: bool)
        ensures
            r == self@.contains(ip@),
    {
        position_of(&self.ips, ip).is_some()
    }

    /// Bans `ip` if it is a valid IPv4 address; anything else is ignored.
    pub fn ban(&mut self, ip: &String)
        ensures
            final(self)@ == after_ban(old(self)@, ip@),
    {
        if is_ip_valid(ip.as_str()) {
            self.ips.push(ip.clone());
            assert(self@ =~= old(self)@.push(ip@));
        }
    }

    /// Takes every listing of `ip` away if it is a valid IPv4 address;
    /// anything else is ignored.
    pub fn unban(&mut self, ip: &String)
        ensures
            final(self)@ == after_unban(old(self)@, ip@),
    {
        if is_ip_valid(ip.as_str()) {
            self.ips = without_all(&self.ips, ip);
        }
    }
}

/// What a login credential amounts to.
#[derive(Debug, Clone, Copy, PartialEq, Eq, Structural)]
pub enum AdminOutcome {
    /// No admin existed; this credential is now the admin's.
    BecameAdmin,
    /// The credential already belongs to an admin.
    AlreadyAdmin,
    /// An admin exists and this credential is not one of its.
    NotAdmin,
}

/// Whether an admin was set up, the credentials that grant admin rights, and
/// the verified addresses and credentials (none until the first is added).
pub struct AdminState {
    pub admin_created: bool,
    pub admin_hashes: Vec<String>,
    pub verified_list: Option<Vec<String>>,
}

/// What the admin registry holds, as values.
pub struct AdminView {
    pub admin_created: bool,
    pub admin_hashes: Seq<Seq<char>>,
    pub verified_list: Option<Seq<Seq<char>>>,
}

impl View for AdminState {
    type V = AdminView;

    open spec fn view(&self) -> AdminView {
        AdminView {
            admin_created: self.admin_created,
            admin_hashes: strings_view(self.admin_hashes@),
            verified_list: match self.verified_list {
                Some(l) => Some(strings_view(l@)),
                None => None,
            },
        }
    }
}

/// Whether `identity` is on the verified list of `a`.
pub open spec fn verified_in(a: AdminView, identity: Seq<char>) -> bool {
    match a.verified_list {
        Some(l) => l.contains(identity),
        None => false,
    }
}

/// What submitting `credential` to `a` amounts to.
pub open spec fn bootstrap_outcome(a: AdminView, credential: Seq<char>) -> AdminOutcome {
    if !a.admin_created {
        AdminOutcome::BecameAdmin
    } else if a.admin_hashes.contains(credential) {
        AdminOutcome::AlreadyAdmin
    } else {
        AdminOutcome::NotAdmin
    }
}

/// `a` after `credential` is submitted: it becomes the admin's if no admin
/// exists yet.
pub open spec fn after_bootstrap(a: AdminView, credential: Seq<char>) -> AdminView {
    if !a.admin_created {
        AdminView { admin_created: true, admin_hashes: a.admin_hashes.push(credential), ..a }
    } else {
        a
    }
}

/// `a` with `identity` added to its verified list.
pub open spec fn with_verified(a: AdminView, identity: Seq<char>) -> AdminView {
    AdminView {
        verified_list: Some(
            match a.verified_list {
                Some(l) => l.push(identity),
                None => seq![identity],
            },
        ),
        ..a
    }
}

/// `a` with every listing of `identity` taken off its verified list.
pub open spec fn without_verified(a: AdminView, identity: Seq<char>) -> AdminView {
    AdminView {
        verified_list: match a.verified_list {
            Some(l) => Some(l.filter(differs_from(identity))),
            None => None,
        },
        ..a
    }
}

impl AdminState {
    /// No admin yet, no verified identity.
    pub fn new() -> (r: Self)
        ensures
            !r@.admin_created,
            r@.admin_hashes == Seq::<Seq<char>>::empty(),
            r@.verified_list is None,
    {
        let r = AdminState { admin_created: false, admin_hashes: Vec::new(), verified_list: None };
        assert(r@.admin_hashes =~= Seq::<Seq<char>>::empty());
        r
    }

    /// A copy of the registry.
    pub fn copy(&self) -> (r: AdminState)
        ensures
            r@ == self@,
    {
        let verified_list = match &self.verified_list {
            Some(l) => Some(copy_strings(l)),
            None => None,
        };
        AdminState { admin_created: self.admin_created, admin_hashes: copy_strings(&self.admin_hashes), verified_list }
    }

    /// Whether `credential` grants admin rights.
    pub fn is_admin(&self, credential: &String) -> (r: bool)
        ensures
            r == self@.admin_hashes.contains(credential@),
    {
        position_of(&self.admin_hashes, credential).is_some()
    }

    /// The first credential ever submitted makes its holder admin, once;
    /// after that a credential is checked against the admin credentials.
    pub fn bootstrap_or_check(&mut self, credential: &String) -> (r: AdminOutcome)
        ensures
            r == bootstrap_outcome(old(self)@, credential@),
            final(self)@ == after_bootstrap(old(self)@, credential@),
    {
        if !self.admin_created {
            self.admin_created = true;
            self.admin_hashes.push(credential.clone());
            assert(self@.admin_hashes =~= old(self)@.admin_hashes.push(credential@));
            AdminOutcome::BecameAdmin
        } else if self.is_admin(credential) {
            AdminOutcome::AlreadyAdmin
        } else {
            AdminOutcome::NotAdmin
        }
    }

    /// Whether `identity`, an address or a credential, is verified.
    pub fn is_verified(&self, identity: &String) -> (r: bool)
        ensures
            r == verified_in(self@, identity@),
    {
        match &self.verified_list {
            Some(l) => position_of(l, identity).is_some(),
            None => false,
        }
    }

    /// Whether a request from `ip`, logged in under `login` if at all, comes
    /// from a verified visitor: its credential or its address is verified.
    pub fn is_verified_request(&self, ip: &String, login: Option<&String>) -> (r: bool)
        ensures
            r == ((login matches Some(c) && verified_in(self@, c@)) || verified_in(self@, ip@)),
    {
        match login {
            Some(c) => {
                if self.is_verified(c) {
                    return true;
                }
            },
            None => {},
        }
        self.is_verified(ip)
    }

    /// Adds `identity` to the verified list, starting the list if there is none.
    pub fn add_verified(&mut self, identity: &String)
        ensures
            final(self)@ == with_verified(old(self)@, identity@),
    {
        match &mut self.verified_list {
            Some(l) => {
                l.push(identity.clone());
            },
            None => {
                let mut l: Vec<String> = Vec::new();
                l.push(identity.clone());
                self.verified_list = Some(l);
            },
        }
        proof {
            match (old(self)@.verified_list, self@.verified_list) {
                (Some(a), Some(b)) => {
                    assert(b =~= a.push(identity@));
                },
                (None, Some(b)) => {
                    assert(b =~= seq![identity@]);
                },
                _ => {},
            }
        }
    }

    /// Takes every listing of `identity` off the verified list.
    pub fn remove_verified(&mut self, identity: &String)
        ensures
            final(self)@ == without_verified(old(self)@, identity@),
    {
        match &self.verified_list {
            Some(l) => {
                self.verified_list = Some(without_all(l, identity));
            },
            None => {},
        }
    }
}

/// On a registry with no admin, the first credential submitted becomes the
/// admin's; a different credential submitted afterwards is refused and is
/// not added.
pub proof fn lemma_admin_bootstrap(fresh: AdminView, first: Seq<char>, second: Seq<char>)
    requires
        !fresh.admin_created,
        fresh.admin_hashes.len() == 0,
        second != first,
    ensures
        bootstrap_outcome(fresh, first) == AdminOutcome::BecameAdmin,
        after_bootstrap(fresh, first).admin_hashes.contains(first),
        bootstrap_outcome(after_bootstrap(fresh, first), second) == AdminOutcome::NotAdmin,
        !after_bootstrap(after_bootstrap(fresh, first), second).admin_hashes.contains(second),
{
    let a1 = after_bootstrap(fresh, first);
    assert(a1.admin_hashes =~= seq![first]);
    assert(a1.admin_hashes[0] == first);
    if a1.admin_hashes.contains(second) {
        let i = choose|i: int| 0 <= i < a1.admin_hashes.len() && a1.admin_hashes[i] == second;
        assert(i == 0);
    }
}

/// Banning a valid address makes it banned; a request to ban anything else
/// leaves the list as it was.
pub proof fn lemma_ban_then_banned(bans: Seq<Seq<char>>, ip: Seq<char>)
    ensures
        valid_ipv4(ip) ==> after_ban(bans, ip).contains(ip),
        !valid_ipv4(ip) ==> after_ban(bans, ip) == bans,
{
    if valid_ipv4(ip) {
        assert(after_ban(bans, ip)[bans.len() as int] == ip);
    }
}

/// Unbanning a valid address leaves it unbanned, however often it was banned;
/// a request to unban anything else leaves the list as it was.
pub proof fn lemma_unban_then_not_banned(bans: Seq<Seq<char>>, ip: Seq<char>)
    ensures
        valid_ipv4(ip) ==> !after_unban(bans, ip).contains(ip),
        !valid_ipv4(ip) ==> after_unban(bans, ip) == bans,
{
    if valid_ipv4(ip) {
        broadcast use vstd::seq_lib::group_filter_ensures;
        let r = bans.filter(differs_from(ip));
        if r.contains(ip) {
            let k = choose|k: int| 0 <= k < r.len() && r[k] == ip;
            assert(differs_from(ip)(r[k]));
        }
    }
}

/// An identity just added to the verified list is verified.
pub proof fn lemma_verified_after_add(a: AdminView, identity: Seq<char>)
    ensures
        verified_in(with_verified(a, identity), identity),
{
    let l = with_verified(a, identity).verified_list->0;
    assert(l[l.len() - 1] == identity);
}

} // verus!
