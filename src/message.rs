use vstd::prelude::*;

verus! {

/// The text of a message as a visitor submitted it.
pub struct NewMessage {
    pub msg: String,
}

/// One message left by a client: its text, when it was accepted (seconds
/// since the Unix epoch) and, if the poster was logged in, the login
/// credential that may see it.
pub struct Message {
    pub text: String,
    pub time_stamp: u64,
    pub user_hash: Option<String>,
}

/// What a message holds, as values.
pub struct MessageView {
    pub text: Seq<char>,
    pub time_stamp: u64,
    pub user_hash: Option<Seq<char>>,
}

/// The characters of an optional string.
pub open spec fn opt_view(o: Option<String>) -> Option<Seq<char>> {
    match o {
        Some(s) => Some(s@),
        None => None,
    }
}

/// The characters of an optional borrowed string.
pub open spec fn opt_ref_view(o: Option<&String>) -> Option<Seq<char>> {
    match o {
        Some(s) => Some(s@),
        None => None,
    }
}

impl View for Message {
    type V = MessageView;

    open spec fn view(&self) -> MessageView {
        MessageView { text: self.text@, time_stamp: self.time_stamp, user_hash: opt_view(self.user_hash) }
    }
}

/// A copy of an optional string.
pub fn copy_opt(o: &Option<String>) -> (r: Option<String>)
    ensures
        opt_view(r) == opt_view(*o),
{
    match o {
        Some(s) => Some(s.clone()),
        None => None,
    }
}

impl Message {
    /// A copy of this message.
    pub fn copy(&self) -> (r: Message)
        ensures
            r@ == self@,
    {
        Message { text: self.text.clone(), time_stamp: self.time_stamp, user_hash: copy_opt(&self.user_hash) }
    }
}

} // verus!
