//! The short texts shown when a request is refused.
use vstd::prelude::*;

verus! {

/// Shown when a message is over the length limit.
pub fn too_long() -> (r: String)
    ensures
        r@ == "That message is too long, please try to make it shorter :)"@,
{
    String::from_str("That message is too long, please try to make it shorter :)")
}

/// Shown when a message is under the length limit.
pub fn too_short() -> (r: String)
    ensures
        r@ == "That message is too short. :)"@,
{
    String::from_str("That message is too short. :)")
}

/// Shown when a client sends a text it already sent.
pub fn duplicate() -> (r: String)
    ensures
        r@ == "That message is a duplicate message."@,
{
    String::from_str("That message is a duplicate message.")
}

/// Shown when a request cannot be served.
pub fn error_message() -> (r: String)
    ensures
        r@ == "An unexpected error occurred. ¯\\_(ツ)_/¯"@,
{
    String::from_str("An unexpected error occurred. ¯\\_(ツ)_/¯")
}

/// Shown when a paste does not exist.
pub fn paste_404() -> (r: String)
    ensures
        r@ == "That paste does not exist."@,
{
    String::from_str("That paste does not exist.")
}

} // verus!
