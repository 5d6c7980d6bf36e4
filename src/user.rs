use vstd::prelude::*;
use crate::message::{Message, MessageView, opt_view};

verus! {

/// Everything the ledger keeps about one client: the messages it left, oldest
/// first, and when it last posted (seconds since the Unix epoch).
pub struct User {
    pub messages: Vec<Message>,
    pub last_time_post: u64,
}

/// What a client record holds, as values.
pub struct UserView {
    pub messages: Seq<MessageView>,
    pub last_time_post: u64,
}

impl View for User {
    type V = UserView;

    open spec fn view(&self) -> UserView {
        UserView {
            messages: self.messages@.map_values(|m: Message| m@),
            last_time_post: self.last_time_post,
        }
    }
}

/// A client that last posted at `last` may post at `now` once `cooldown`
/// seconds have passed; a clock that reads earlier than `last` never allows it.
pub open spec fn cooldown_over(last: u64, now: u64, cooldown: u64) -> bool {
    now >= last && now - last >= cooldown
}

/// Whether some message of `u` has text `text`.
pub open spec fn has_text(u: UserView, text: Seq<char>) -> bool {
    exists|i: int| 0 <= i < u.messages.len() && #[trigger] u.messages[i].text == text
}

/// The message with `text` posted at `now` under `hash`.
pub open spec fn posted(text: Seq<char>, hash: Option<Seq<char>>, now: u64) -> MessageView {
    MessageView { text, time_stamp: now, user_hash: hash }
}

impl User {
    /// A record whose only message is `message`, posted at `now`.
    pub fn new(message: Message, now: u64) -> (r: User)
        ensures
            r@.messages == seq![message@],
            r@.last_time_post == now,
    {
        let mut messages: Vec<Message> = Vec::new();
        messages.push(message);
        let r = User { messages, last_time_post: now };
        assert(r@.messages =~= seq![message@]);
        r
    }

    /// Appends a message with text `msg` under `hash`, and records `now` as
    /// the time of the last post.
    pub fn push(&mut self, msg: String, hash: Option<String>, now: u64)
        ensures
            final(self)@.messages == old(self)@.messages.push(posted(msg@, opt_view(hash), now)),
            final(self)@.last_time_post == now,
    {
        let message = Message { text: msg, time_stamp: now, user_hash: hash };
        self.messages.push(message);
        self.last_time_post = now;
        assert(self@.messages =~= old(self)@.messages.push(posted(msg@, opt_view(hash), now)));
    }

    /// Whether the cooldown since the last post is over at `now`.
    pub fn can_post(&self, now: u64, cooldown: u64) -> (r: bool)
        ensures
            r == cooldown_over(self.last_time_post, now, cooldown),
    {
        now >= self.last_time_post && now - self.last_time_post >= cooldown
    }

    /// Whether this client already left a message with text `msg`.
    pub fn is_dupe_message(&self, msg: &String) -> (r: bool)
        ensures
            r == has_text(self@, msg@),
    {
        let mut i: usize = 0;
        while i < self.messages.len()
            invariant
                i <= self.messages@.len(),
                forall|j: int| 0 <= j < i ==> (#[trigger] self.messages@[j]).text@ != msg@,
            decreases self.messages@.len() - i,
        {
            if self.messages[i].text == *msg {
                assert(self@.messages[i as int].text == msg@);
                return true;
            }
            i = i + 1;
        }
        assert forall|j: int| 0 <= j < self@.messages.len() implies #[trigger] self@.messages[j].text != msg@ by {
            assert(self@.messages[j] == self.messages@[j]@);
        }
        false
    }

    /// A copy of this record.
    pub fn copy(&self) -> (r: User)
        ensures
            r@ == self@,
    {
        let mut messages: Vec<Message> = Vec::new();
        let mut i: usize = 0;
        while i < self.messages.len()
            invariant
                i <= self.messages@.len(),
                messages@.len() == i,
                forall|j: int| 0 <= j < i ==> (#[trigger] messages@[j])@ == self.messages@[j]@,
            decreases self.messages@.len() - i,
        {
            messages.push(self.messages[i].copy());
            i = i + 1;
        }
        let r = User { messages, last_time_post: self.last_time_post };
        assert(r@.messages =~= self@.messages);
        r
    }
}

} // verus!
