//! The registries as one service state, and the snapshot record that is
//! written to durable storage and read back on start.
use vstd::prelude::*;
use crate::access::{AdminState, AdminView, BanList};
use crate::ledger::ClientLedger;
use crate::metrics::{Metrics, UserMetricView};
use crate::paste::{PasteStore, PasteView};
use crate::user::UserView;

verus! {

/// The registries a snapshot keeps. A section that is absent reads as empty.
/// Pastes are not kept.
pub struct StateSave {
    pub messages: ClientLedger,
    pub banned_ips: Option<BanList>,
    pub admin_state: Option<AdminState>,
    pub unique_users: Option<Metrics>,
}

/// The state of the whole service: each registry is shared on its own.
pub struct TYRState {
    pub messages: ClientLedger,
    pub banned_ips: BanList,
    pub admin_state: AdminState,
    pub unique_users: Metrics,
    pub pastes: PasteStore,
}

/// What a snapshot holds, as values.
pub struct SaveView {
    pub messages: Map<Seq<char>, UserView>,
    pub cooldown: u64,
    pub banned_ips: Option<Seq<Seq<char>>>,
    pub admin_state: Option<AdminView>,
    pub unique_users: Option<Map<Seq<char>, UserMetricView>>,
}

/// What the service state holds, as values.
pub struct StateView {
    pub messages: Map<Seq<char>, UserView>,
    pub cooldown: u64,
    pub banned_ips: Seq<Seq<char>>,
    pub admin_state: AdminView,
    pub unique_users: Map<Seq<char>, UserMetricView>,
    pub pastes: Map<Seq<char>, PasteView>,
}

impl View for StateSave {
    type V = SaveView;

    open spec fn view(&self) -> SaveView {
        SaveView {
            messages: self.messages@,
            cooldown: self.messages.cooldown_spec(),
            banned_ips: match self.banned_ips {
                Some(b) => Some(b@),
                None => None,
            },
            admin_state: match self.admin_state {
                Some(a) => Some(a@),
                None => None,
            },
            unique_users: match self.unique_users {
                Some(u) => Some(u@),
                None => None,
            },
        }
    }
}

impl View for TYRState {
    type V = StateView;

    open spec fn view(&self) -> StateView {
        StateView {
            messages: self.messages@,
            cooldown: self.messages.cooldown_spec(),
            banned_ips: self.banned_ips@,
            admin_state: self.admin_state@,
            unique_users: self.unique_users@,
            pastes: self.pastes@,
        }
    }
}

/// The admin registry of a service that was never set up.
pub open spec fn no_admin() -> AdminView {
    AdminView { admin_created: false, admin_hashes: Seq::empty(), verified_list: None }
}

/// The snapshot of `s`: every section present, pastes left out.
pub open spec fn snapshot_of(s: StateView) -> SaveView {
    SaveView {
        messages: s.messages,
        cooldown: s.cooldown,
        banned_ips: Some(s.banned_ips),
        admin_state: Some(s.admin_state),
        unique_users: Some(s.unique_users),
    }
}

/// The state read back from `v`: absent sections are empty, and there are no pastes.
pub open spec fn restored_from(v: SaveView) -> StateView {
    StateView {
        messages: v.messages,
        cooldown: v.cooldown,
        banned_ips: match v.banned_ips {
            Some(b) => b,
            None => Seq::empty(),
        },
        admin_state: match v.admin_state {
            Some(a) => a,
            None => no_admin(),
        },
        unique_users: match v.unique_users {
            Some(u) => u,
            None => Map::empty(),
        },
        pastes: Map::empty(),
    }
}

impl StateSave {
    /// A snapshot of the given registries, every section present.
    pub fn capture(messages: &ClientLedger, banned_ips: &BanList, admin_state: &AdminState, unique_users: &Metrics) -> (r:
        StateSave)
        ensures
            r@.messages == messages@,
            r@.cooldown == messages.cooldown_spec(),
            r@.banned_ips == Some(banned_ips@),
            r@.admin_state == Some(admin_state@),
            r@.unique_users == Some(unique_users@),
    {
        StateSave {
            messages: messages.copy(),
            banned_ips: Some(banned_ips.copy()),
            admin_state: Some(admin_state.copy()),
            unique_users: Some(unique_users.copy()),
        }
    }
}

impl TYRState {
    /// A service with no state yet, with the given cooldown between posts.
    pub fn new(cooldown: u64) -> (r: Self)
        ensures
            r@ == restored_from(
                SaveView {
                    messages: Map::empty(),
                    cooldown,
                    banned_ips: None,
                    admin_state: None,
                    unique_users: None,
                },
            ),
    {
        TYRState {
            messages: ClientLedger::new(cooldown),
            banned_ips: BanList::new(),
            admin_state: AdminState::new(),
            unique_users: Metrics::new(),
            pastes: PasteStore::new(),
        }
    }

    /// The state a snapshot describes.
    pub fn from_state_save(state_save: StateSave) -> (r: Self)
        ensures
            r@ == restored_from(state_save@),
    {
        let banned_ips = match state_save.banned_ips {
            Some(b) => b,
            None => BanList::new(),
        };
        let admin_state = match state_save.admin_state {
            Some(a) => a,
            None => AdminState::new(),
        };
        let unique_users = match state_save.unique_users {
            Some(u) => u,
            None => Metrics::new(),
        };
        let r = TYRState {
            messages: state_save.messages,
            banned_ips,
            admin_state,
            unique_users,
            pastes: PasteStore::new(),
        };
        assert(r@.admin_state =~= restored_from(state_save@).admin_state);
        r
    }

    /// The snapshot of this state; the pastes are dropped.
    pub fn into_state_save(self) -> (r: StateSave)
        ensures
            r@ == snapshot_of(self@),
    {
        StateSave {
            messages: self.messages,
            banned_ips: Some(self.banned_ips),
            admin_state: Some(self.admin_state),
            unique_users: Some(self.unique_users),
        }
    }
}

/// Reading back a snapshot gives the state it was taken from, except for the
/// pastes, which snapshots do not keep.
pub proof fn lemma_restore_snapshot(s: StateView)
    ensures
        restored_from(snapshot_of(s)) == (StateView { pastes: Map::empty(), ..s }),
{
}

} // verus!
