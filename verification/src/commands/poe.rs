//! The command that links to a user's characters.

use std::collections::HashMap;
use vstd::prelude::*;
use vstd::string::StringExecFns;

verus! {

broadcast use vstd::std_specs::hash::group_hash_axioms;

/// The address of the characters of an account.
pub open spec fn profile_address(account: Seq<char>) -> Seq<char> {
    "https://www.pathofexile.com/account/view-profile/"@ + account + "/characters"@
}

/// The address of the characters of the account that is linked to the user,
/// or a notice that none is.
pub fn get_response_content(user_id: u64, config: &HashMap<u64, String>) -> (content: String)
    ensures
        config@.contains_key(user_id) ==> content@ == profile_address(config@[user_id]@),
        !config@.contains_key(user_id) ==> content@
            == "This user does not have an account linked"@,
{
    match config.get(&user_id) {
        Some(account) => {
            let mut content = "https://www.pathofexile.com/account/view-profile/".to_owned();
            content.append(account.as_str());
            content.append("/characters");
            content
        },
        None => "This user does not have an account linked".to_owned(),
    }
}

} // verus!
