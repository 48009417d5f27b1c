//! The ping command.

use vstd::prelude::*;

verus! {

/// What the bot answers a ping with.
pub fn get_response_content() -> (content: String)
    ensures
        content@ == "Hey, I'm alive!"@,
{
    "Hey, I'm alive!".to_owned()
}

} // verus!
