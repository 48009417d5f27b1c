//! The daily post of the gif of the day: when it is due and what it says.

use crate::commands::error::database_error_text;
use crate::commands::secret::{mention, mention_text};
use crate::database::DatabaseResult;
use vstd::prelude::*;
use vstd::string::StringExecFns;

verus! {

/// The hour of the day, local time, at which the gif is posted.
pub const HOUR_TO_RUN: u32 = 17;

/// A moment of local time: the day, counted from some fixed day, and the
/// second of that day.
#[derive(Clone, Copy, Debug, PartialEq, Eq, Structural)]
pub struct LocalMoment {
    pub day: i64,
    pub second_of_day: u32,
}

/// The second of the day at which the gif is posted.
pub open spec fn second_to_run() -> u32 {
    (HOUR_TO_RUN * 3600) as u32
}

/// The next moment at which the gif is due: today at the hour to run if
/// that is still ahead, else tomorrow at that hour.
pub fn next_nine_am(now: LocalMoment) -> (next: LocalMoment)
    requires
        now.day < i64::MAX,
    ensures
        next.second_of_day == second_to_run(),
        next.day == if now.second_of_day < second_to_run() {
            now.day as int
        } else {
            now.day + 1
        },
{
    let at: u32 = HOUR_TO_RUN * 3600;
    if now.second_of_day < at {
        LocalMoment { day: now.day, second_of_day: at }
    } else {
        LocalMoment { day: now.day + 1, second_of_day: at }
    }
}

/// What is posted: the gif and who submitted it, or why none could be had.
pub open spec fn post_text(selection: DatabaseResult<(u64, String)>) -> Seq<char> {
    match selection {
        Ok(chosen) => chosen.1@ + " Submitted by "@ + mention_text(chosen.0),
        Err(why) => "Error posting GotD: "@ + database_error_text(why),
    }
}

/// The text of the daily post, given what the store selected.
pub fn post_content(selection: &DatabaseResult<(u64, String)>) -> (content: String)
    ensures
        content@ == post_text(*selection),
{
    match selection {
        Ok(chosen) => {
            let mut content = chosen.1.clone();
            let submitter = mention(chosen.0);
            content.append(" Submitted by ");
            content.append(submitter.as_str());
            content
        },
        Err(why) => {
            let mut content = "Error posting GotD: ".to_owned();
            let detail = why.to_string();
            content.append(detail.as_str());
            content
        },
    }
}

} // verus!
