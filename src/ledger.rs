//! The per-client message ledger: who posted what and when, the cooldown
//! between posts, duplicate detection and message visibility.
use vstd::prelude::*;
use crate::assoc::{keys_unique, to_map, lemma_to_map_finite, find_key, lemma_to_map_index, lemma_to_map_absent,
    lemma_push, lemma_update, lemma_to_map_empty};
use crate::message::{Message, MessageView, NewMessage, opt_view};
use crate::user::{User, UserView, cooldown_over, has_text, posted};
use crate::{MESSAGE_LENGTH_CAP, MESSAGE_LENGTH_MIN};

verus! {

/// Whether a client with records `m` may post from `ip` at `now`: a client
/// that never posted always may.
pub open spec fn ledger_can_post(m: Map<Seq<char>, UserView>, ip: Seq<char>, now: u64, cooldown: u64) -> bool {
    !m.contains_key(ip) || cooldown_over(m[ip].last_time_post, now, cooldown)
}

/// Whether `ip` already left a message with text `text`.
pub open spec fn ledger_is_duplicate(m: Map<Seq<char>, UserView>, ip: Seq<char>, text: Seq<char>) -> bool {
    m.contains_key(ip) && has_text(m[ip], text)
}

/// The messages `ip` left so far.
pub open spec fn prior_messages(m: Map<Seq<char>, UserView>, ip: Seq<char>) -> Seq<MessageView> {
    if m.contains_key(ip) {
        m[ip].messages
    } else {
        Seq::empty()
    }
}

/// The records after `ip` posts `text` under `hash` at `now`.
pub open spec fn ledger_after_post(
    m: Map<Seq<char>, UserView>,
    ip: Seq<char>,
    text: Seq<char>,
    hash: Option<Seq<char>>,
    now: u64,
) -> Map<Seq<char>, UserView> {
    m.insert(
        ip,
        UserView { messages: prior_messages(m, ip).push(posted(text, hash, now)), last_time_post: now },
    )
}

/// The messages of `entries`, client by client, that were left under `cred`.
pub open spec fn shared_with(entries: Seq<(Seq<char>, UserView)>, cred: Seq<char>) -> Seq<MessageView>
    decreases entries.len(),
{
    if entries.len() == 0 {
        Seq::empty()
    } else {
        shared_with(entries.drop_last(), cred) + entries.last().1.messages.filter(left_under(cred))
    }
}

/// Whether a message was left under `cred`.
pub open spec fn left_under(cred: Seq<char>) -> spec_fn(MessageView) -> bool {
    |m: MessageView| m.user_hash == Some(cred)
}

/// Whether a message was left while not logged in.
pub open spec fn left_anonymously() -> spec_fn(MessageView) -> bool {
    |m: MessageView| m.user_hash is None
}

/// The messages of `m`'s record for `ip` that were left while not logged in.
pub open spec fn anonymous_of(m: Map<Seq<char>, UserView>, ip: Seq<char>) -> Seq<MessageView> {
    prior_messages(m, ip).filter(left_anonymously())
}

/// Why a message was refused, or that it was accepted.
#[derive(Debug, Clone, Copy, PartialEq, Eq, Structural)]
pub enum PostOutcome {
    Posted,
    NotAscii,
    TooLong,
    TooShort,
    TooSoon,
    Duplicate,
}

/// What happens to a message with text `text` from `ip` at `now`. Verified
/// posters skip the character and length rules.
pub open spec fn post_outcome(
    m: Map<Seq<char>, UserView>,
    ip: Seq<char>,
    text: Seq<char>,
    is_verified: bool,
    now: u64,
    cooldown: u64,
) -> PostOutcome {
    if !is_verified && !vstd::utf8::is_ascii_chars(text) {
        PostOutcome::NotAscii
    } else if !is_verified && text.len() > MESSAGE_LENGTH_CAP {
        PostOutcome::TooLong
    } else if !is_verified && text.len() < MESSAGE_LENGTH_MIN {
        PostOutcome::TooShort
    } else if !ledger_can_post(m, ip, now, cooldown) {
        PostOutcome::TooSoon
    } else if ledger_is_duplicate(m, ip, text) {
        PostOutcome::Duplicate
    } else {
        PostOutcome::Posted
    }
}

/// The message records of all clients, keyed by IP address, with the cooldown
/// (in seconds) that must pass between two posts of one client.
pub struct ClientLedger {
    entries: Vec<(String, User)>,
    cooldown: u64,
}

pub open spec fn entry_view(e: (String, User)) -> (Seq<char>, UserView) {
    (e.0@, e.1@)
}

impl View for ClientLedger {
    type V = Map<Seq<char>, UserView>;

    closed spec fn view(&self) -> Map<Seq<char>, UserView> {
        to_map(self.entries())
    }
}

impl ClientLedger {
    /// The records in the order in which their clients first posted.
    pub closed spec fn entries(&self) -> Seq<(Seq<char>, UserView)> {
        self.entries@.map_values(|e: (String, User)| entry_view(e))
    }

    pub closed spec fn cooldown_spec(&self) -> u64 {
        self.cooldown
    }

    #[verifier::type_invariant]
    spec fn well_formed(&self) -> bool {
        keys_unique(self.entries())
    }

    /// An empty ledger with the given cooldown.
    pub fn new(cooldown: u64) -> (r: Self)
        ensures
            r@ == Map::<Seq<char>, UserView>::empty(),
            r.entries().len() == 0,
            r.cooldown_spec() == cooldown,
    {
        let r = ClientLedger { entries: Vec::new(), cooldown };
        proof {
            lemma_to_map_empty(r.entries());
        }
        r
    }

    /// The seconds that must pass between two posts of one client.
    pub fn cooldown(&self) -> (r: u64)
        ensures
            r == self.cooldown_spec(),
    {
        self.cooldown
    }

    /// The store holds finitely many records.
    pub proof fn lemma_dom_finite(&self)
        ensures
            self@.dom().finite(),
    {
        lemma_to_map_finite(self.entries());
    }

    /// All records, in the order in which their clients first posted.
    pub fn get_entries(&self) -> (r: &Vec<(String, User)>)
        ensures
            r@.map_values(|e: (String, User)| entry_view(e)) == self.entries(),
            self@ == to_map(self.entries()),
            self@.dom().finite(),
    {
        proof {
            lemma_to_map_finite(self.entries());
        }
        &self.entries
    }

    fn index_of(&self, ip: &String) -> (r: Option<usize>)
        ensures
            r matches Some(i) ==> i < self.entries().len() && self.entries()[i as int].0 == ip@
                && self@.contains_key(ip@) && self@[ip@] == self.entries()[i as int].1,
            r is None ==> !self@.contains_key(ip@),
    {
        proof {
            use_type_invariant(self);
        }
        let r = find_key(&self.entries, ip);
        proof {
            match r {
                Some(i) => {
                    lemma_to_map_index(self.entries(), i as int);
                },
                None => {
                    assert forall|j: int| 0 <= j < self.entries().len() implies #[trigger] self.entries()[j].0 != ip@ by {
                        assert(self.entries()[j] == entry_view(self.entries@[j]));
                    }
                    lemma_to_map_absent(self.entries(), ip@);
                },
            }
        }
        r
    }

    /// The record of `ip`, if it ever posted.
    pub fn get(&self, ip: &String) -> (r: Option<&User>)
        ensures
            r is Some <==> self@.contains_key(ip@),
            r matches Some(u) ==> u@ == self@[ip@],
    {
        match self.index_of(ip) {
            Some(i) => Some(&self.entries[i].1),
            None => None,
        }
    }

    /// Whether `ip` may post at `now`.
    pub fn can_post(&self, ip: &String, now: u64) -> (r: bool)
        ensures
            r == ledger_can_post(self@, ip@, now, self.cooldown_spec()),
    {
        match self.index_of(ip) {
            Some(i) => self.entries[i].1.can_post(now, self.cooldown),
            None => true,
        }
    }

    /// The seconds `ip` still has to wait before it may post at `now`; zero
    /// when it may post, and when the clock reads earlier than its last post.
    pub fn cooldown_remaining(&self, ip: &String, now: u64) -> (r: u64)
        ensures
            r == (if self@.contains_key(ip@) && now >= self@[ip@].last_time_post
                && !cooldown_over(self@[ip@].last_time_post, now, self.cooldown_spec()) {
                self.cooldown_spec() - (now - self@[ip@].last_time_post)
            } else {
                0
            }),
    {
        match self.index_of(ip) {
            Some(i) => {
                let last = self.entries[i].1.last_time_post;
                if now >= last && now - last < self.cooldown {
                    self.cooldown - (now - last)
                } else {
                    0
                }
            },
            None => 0,
        }
    }

    /// Whether `ip` already left a message with text `text`.
    pub fn is_duplicate(&self, ip: &String, text: &String) -> (r: bool)
        ensures
            r == ledger_is_duplicate(self@, ip@, text@),
    {
        match self.index_of(ip) {
            Some(i) => self.entries[i].1.is_dupe_message(text),
            None => false,
        }
    }

    /// Records that `ip` posted `text` under `credential` at `now`, creating
    /// its record on its first post. No rule is checked here.
    pub fn record_post(&mut self, ip: &String, text: String, credential: Option<String>, now: u64)
        ensures
            final(self)@ == ledger_after_post(old(self)@, ip@, text@, opt_view(credential), now),
            final(self).cooldown_spec() == old(self).cooldown_spec(),
    {
        let ghost hash = opt_view(credential);
        let ghost tv = text@;
        let ghost m0 = self@;
        let idx = self.index_of(ip);
        proof {
            use_type_invariant(&*self);
        }
        let mut entries: Vec<(String, User)> = Vec::new();
        std::mem::swap(&mut entries, &mut self.entries);
        let ghost before = entries@.map_values(|e: (String, User)| entry_view(e));
        match idx {
            Some(i) => {
                let (key, mut user) = entries.remove(i);
                let ghost old_user = user@;
                user.push(text, credential, now);
                entries.insert(i, (key, user));
                proof {
                    assert(entries@.map_values(|e: (String, User)| entry_view(e)) =~= before.update(i as int, (before[i as int].0, user@)));
                    lemma_update(before, i as int, user@);
                    assert(user@ =~= UserView { messages: prior_messages(m0, ip@).push(posted(tv, hash, now)), last_time_post: now });
                }
            },
            None => {
                let msg = Message { text, time_stamp: now, user_hash: credential };
                let user = User::new(msg, now);
                entries.push((ip.clone(), user));
                proof {
                    assert(entries@.map_values(|e: (String, User)| entry_view(e)) =~= before.push((ip@, user@)));
                    lemma_push(before, ip@, user@);
                    assert(user@ =~= UserView { messages: prior_messages(m0, ip@).push(posted(tv, hash, now)), last_time_post: now });
                }
            },
        }
        self.entries = entries;
    }

    /// Clears the cooldown of `ip` by setting its last post to the epoch; a
    /// client that never posted is left alone.
    pub fn admin_reset_cooldown(&mut self, ip: &String)
        ensures
            final(self)@ == (if old(self)@.contains_key(ip@) {
                old(self)@.insert(ip@, UserView { last_time_post: 0, ..old(self)@[ip@] })
            } else {
                old(self)@
            }),
            final(self).cooldown_spec() == old(self).cooldown_spec(),
    {
        let idx = self.index_of(ip);
        proof {
            use_type_invariant(&*self);
        }
        match idx {
            Some(i) => {
                let mut entries: Vec<(String, User)> = Vec::new();
                std::mem::swap(&mut entries, &mut self.entries);
                let ghost before = entries@.map_values(|e: (String, User)| entry_view(e));
                let (key, mut user) = entries.remove(i);
                user.last_time_post = 0;
                entries.insert(i, (key, user));
                proof {
                    assert(entries@.map_values(|e: (String, User)| entry_view(e)) =~= before.update(i as int, (before[i as int].0, user@)));
                    lemma_update(before, i as int, user@);
                }
                self.entries = entries;
            },
            None => {},
        }
    }

    /// A copy of the ledger.
    pub fn copy(&self) -> (r: ClientLedger)
        ensures
            r@ == self@,
            r.entries() == self.entries(),
            r.cooldown_spec() == self.cooldown_spec(),
    {
        proof {
            use_type_invariant(self);
        }
        let mut entries: Vec<(String, User)> = Vec::new();
        let mut i: usize = 0;
        while i < self.entries.len()
            invariant
                i <= self.entries@.len(),
                entries@.len() == i,
                forall|k: int| 0 <= k < i ==> entry_view(#[trigger] entries@[k]) == entry_view(self.entries@[k]),
            decreases self.entries@.len() - i,
        {
            let (ip, user) = (&self.entries[i].0, &self.entries[i].1);
            entries.push((ip.clone(), user.copy()));
            i = i + 1;
        }
        assert(entries@.map_values(|e: (String, User)| entry_view(e)) =~= self.entries());
        ClientLedger { entries, cooldown: self.cooldown }
    }

    /// Adds or replaces the whole record of `ip`.
    pub fn insert_user(&mut self, ip: String, user: User)
        ensures
            final(self)@ == old(self)@.insert(ip@, user@),
            final(self).cooldown_spec() == old(self).cooldown_spec(),
    {
        let idx = self.index_of(&ip);
        proof {
            use_type_invariant(&*self);
        }
        let mut entries: Vec<(String, User)> = Vec::new();
        std::mem::swap(&mut entries, &mut self.entries);
        let ghost before = entries@.map_values(|e: (String, User)| entry_view(e));
        let ghost uv = user@;
        let ghost kv = ip@;
        match idx {
            Some(i) => {
                entries.remove(i);
                entries.insert(i, (ip, user));
                proof {
                    assert(entries@.map_values(|e: (String, User)| entry_view(e)) =~= before.update(i as int, (before[i as int].0, uv)));
                    lemma_update(before, i as int, uv);
                }
            },
            None => {
                entries.push((ip, user));
                proof {
                    assert(entries@.map_values(|e: (String, User)| entry_view(e)) =~= before.push((kv, uv)));
                    lemma_push(before, kv, uv);
                }
            },
        }
        self.entries = entries;
    }

    /// What a viewer sees: with a credential, every message of every client
    /// left under that credential, client by client; without one, the
    /// messages that `viewer_ip` left while not logged in.
    pub fn visible_messages(&self, viewer_ip: &String, viewer_credential: Option<&String>) -> (r: Vec<Message>)
        ensures
            r@.map_values(|m: Message| m@) == (match viewer_credential {
                Some(c) => shared_with(self.entries(), c@),
                None => anonymous_of(self@, viewer_ip@),
            }),
    {
        let mut out: Vec<Message> = Vec::new();
        match viewer_credential {
            Some(cred) => {
                let ghost pred = left_under(cred@);
                let mut i: usize = 0;
                while i < self.entries.len()
                    invariant
                        i <= self.entries@.len(),
                        pred == left_under(cred@),
                        out@.map_values(|m: Message| m@) == shared_with(self.entries().take(i as int), cred@),
                    decreases self.entries@.len() - i,
                {
                    let msgs = &self.entries[i].1.messages;
                    let ghost base = out@.map_values(|m: Message| m@);
                    let ghost mv = self.entries()[i as int].1.messages;
                    let mut j: usize = 0;
                    while j < msgs.len()
                        invariant
                            j <= msgs@.len(),
                            i < self.entries@.len(),
                            pred == left_under(cred@),
                            base == shared_with(self.entries().take(i as int), cred@),
                            mv == self.entries()[i as int].1.messages,
                            mv == msgs@.map_values(|m: Message| m@),
                            out@.map_values(|m: Message| m@) == base + mv.take(j as int).filter(pred),
                        decreases msgs@.len() - j,
                    {
                        let ghost prev = out@;
                        proof {
                            assert(mv.take(j + 1) =~= mv.take(j as int).push(mv[j as int]));
                            mv.take(j as int).lemma_filter_push(mv[j as int], pred);
                            assert(mv.take(j + 1).filter(pred) == (if pred(mv[j as int]) {
                                mv.take(j as int).filter(pred).push(mv[j as int])
                            } else {
                                mv.take(j as int).filter(pred)
                            }));
                        }
                        let keep = match &msgs[j].user_hash {
                            Some(h) => *h == *cred,
                            None => false,
                        };
                        assert(mv[j as int] == msgs@[j as int]@);
                        assert(keep == pred(mv[j as int]));
                        if keep {
                            out.push(msgs[j].copy());
                            assert(out@.map_values(|m: Message| m@) =~= prev.map_values(|m: Message| m@).push(mv[j as int]));
                            assert(base + mv.take(j as int).filter(pred).push(mv[j as int]) =~= (base + mv.take(j as int).filter(pred)).push(mv[j as int]));
                        }
                        j = j + 1;
                    }
                    proof {
                        assert(mv.take(j as int) =~= mv);
                        let e = self.entries().take(i + 1);
                        assert(e.len() > 0);
                        assert(e.drop_last() =~= self.entries().take(i as int));
                        assert(e.last().1.messages == mv);
                        assert(shared_with(e, cred@) == shared_with(e.drop_last(), cred@) + e.last().1.messages.filter(pred));
                    }
                    i = i + 1;
                }
                assert(self.entries().take(i as int) == self.entries());
            },
            None => {
                match self.index_of(viewer_ip) {
                    Some(i) => {
                        let msgs = &self.entries[i].1.messages;
                        let ghost mv = msgs@.map_values(|m: Message| m@);
                        let ghost pred = left_anonymously();
                        let mut j: usize = 0;
                        while j < msgs.len()
                            invariant
                                j <= msgs@.len(),
                                pred == left_anonymously(),
                                mv == msgs@.map_values(|m: Message| m@),
                                out@.map_values(|m: Message| m@) == mv.take(j as int).filter(pred),
                            decreases msgs@.len() - j,
                        {
                            let ghost prev = out@;
                            proof {
                                assert(mv.take(j + 1) =~= mv.take(j as int).push(mv[j as int]));
                                mv.take(j as int).lemma_filter_push(mv[j as int], pred);
                                assert(mv.take(j + 1).filter(pred) == (if pred(mv[j as int]) {
                                    mv.take(j as int).filter(pred).push(mv[j as int])
                                } else {
                                    mv.take(j as int).filter(pred)
                                }));
                            }
                            assert(mv[j as int] == msgs@[j as int]@);
                            if msgs[j].user_hash.is_none() {
                                out.push(msgs[j].copy());
                                assert(out@.map_values(|m: Message| m@) =~= prev.map_values(|m: Message| m@).push(mv[j as int]));
                            }
                            j = j + 1;
                        }
                        assert(mv.take(j as int) =~= mv);
                    },
                    None => {
                        assert(out@.map_values(|m: Message| m@) =~= Seq::<MessageView>::empty());
                    },
                }
            },
        }
        out
    }

    /// The texts of the messages `ip` left, oldest first.
    pub fn message_texts(&self, ip: &String) -> (r: Vec<String>)
        ensures
            r@.len() == prior_messages(self@, ip@).len(),
            forall|k: int| 0 <= k < r@.len() ==> (#[trigger] r@[k])@ == prior_messages(self@, ip@)[k].text,
    {
        let mut out: Vec<String> = Vec::new();
        match self.index_of(ip) {
            Some(i) => {
                let msgs = &self.entries[i].1.messages;
                let mut j: usize = 0;
                while j < msgs.len()
                    invariant
                        j <= msgs@.len(),
                        self@.contains_key(ip@),
                        prior_messages(self@, ip@) == msgs@.map_values(|m: Message| m@),
                        out@.len() == j,
                        forall|k: int| 0 <= k < j ==> (#[trigger] out@[k])@ == msgs@[k].text@,
                    decreases msgs@.len() - j,
                {
                    out.push(msgs[j].text.clone());
                    j = j + 1;
                }
            },
            None => {},
        }
        out
    }

    /// Handles a message from `ip` at `now`: unless the poster is verified,
    /// the text must be ASCII and within the length bounds; then the cooldown
    /// must be over and the text new for this client. An accepted message is
    /// recorded under `login`; a refused one changes nothing.
    pub fn submit_message(
        &mut self,
        message: &NewMessage,
        ip: &String,
        login: Option<String>,
        is_verified: bool,
        now: u64,
    ) -> (r: PostOutcome)
        ensures
            r == post_outcome(old(self)@, ip@, message.msg@, is_verified, now, old(self).cooldown_spec()),
            final(self)@ == (if r == PostOutcome::Posted {
                ledger_after_post(old(self)@, ip@, message.msg@, opt_view(login), now)
            } else {
                old(self)@
            }),
            final(self).cooldown_spec() == old(self).cooldown_spec(),
    {
        let text = &message.msg;
        if !is_verified {
            if !text.as_str().is_ascii() {
                return PostOutcome::NotAscii;
            }
            let len = text.as_str().unicode_len();
            if len > MESSAGE_LENGTH_CAP {
                return PostOutcome::TooLong;
            }
            if len < MESSAGE_LENGTH_MIN {
                return PostOutcome::TooShort;
            }
        }
        if !self.can_post(ip, now) {
            return PostOutcome::TooSoon;
        }
        if self.is_duplicate(ip, text) {
            return PostOutcome::Duplicate;
        }
        self.record_post(ip, text.clone(), login, now);
        PostOutcome::Posted
    }
}

/// Right after a post, the poster is on cooldown (when the cooldown is not
/// zero), and it may post again once the cooldown has passed.
pub proof fn lemma_cooldown_after_post(
    m: Map<Seq<char>, UserView>,
    ip: Seq<char>,
    text: Seq<char>,
    hash: Option<Seq<char>>,
    now: u64,
    cooldown: u64,
    later: u64,
)
    requires
        later >= now + cooldown,
    ensures
        cooldown > 0 ==> !ledger_can_post(ledger_after_post(m, ip, text, hash, now), ip, now, cooldown),
        ledger_can_post(ledger_after_post(m, ip, text, hash, now), ip, later, cooldown),
{
}

/// After a client posts a text, sending the same text again from that client
/// is a duplicate.
pub proof fn lemma_duplicate_after_post(
    m: Map<Seq<char>, UserView>,
    ip: Seq<char>,
    text: Seq<char>,
    hash: Option<Seq<char>>,
    now: u64,
)
    ensures
        ledger_is_duplicate(ledger_after_post(m, ip, text, hash, now), ip, text),
{
    let after = ledger_after_post(m, ip, text, hash, now);
    let msgs = after[ip].messages;
    assert(msgs[msgs.len() - 1].text == text);
}

/// A post by one client leaves what counts as a duplicate for every other
/// client as it was.
pub proof fn lemma_duplicate_other_client(
    m: Map<Seq<char>, UserView>,
    ip: Seq<char>,
    text: Seq<char>,
    hash: Option<Seq<char>>,
    now: u64,
    other: Seq<char>,
    other_text: Seq<char>,
)
    requires
        other != ip,
    ensures
        ledger_is_duplicate(ledger_after_post(m, ip, text, hash, now), other, other_text)
            == ledger_is_duplicate(m, other, other_text),
{
}

} // verus!
