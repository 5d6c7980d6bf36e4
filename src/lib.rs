//! Shared state of a small message-board and paste service: per-client message
//! ledgers with cooldown and duplicate checks, a content-addressed paste store,
//! the admin, ban and verification registries, per-client request metrics, and
//! the snapshot record that carries them across restarts.

pub mod common;
pub mod assoc;
pub mod message;
pub mod user;
pub mod ledger;
pub mod access;
pub mod paste;
pub mod metrics;
pub mod state_management;
pub mod admin;
pub mod verified_guard;
pub mod login;
pub mod outcome_pages;
pub mod render;

use vstd::prelude::*;

verus! {

/// The most characters a message of an unverified visitor may have.
pub const MESSAGE_LENGTH_CAP: usize = 150;

/// The fewest characters a message of an unverified visitor may have.
pub const MESSAGE_LENGTH_MIN: usize = 3;

/// The most bytes a paste of an unprivileged visitor may have.
pub const PASTE_LENGTH_CAP: usize = 2000;

/// The fewest bytes a paste of an unprivileged visitor may have.
pub const PASTE_LENGTH_MIN: usize = 10;

/// Seconds a client must wait between two messages.
pub const POST_COOLDOWN: u64 = 3600;

/// Seconds since its last request during which a client counts as online.
pub const ONLINE_TIMER: u64 = 600;

/// How many recent pages are kept per client.
pub const PREVIOUS_REQUEST_LIST_CAP: usize = 50;

} // verus!
