//! Run-time checks of the consistency of tables that come from outside.

use crate::model::{
    drawn_together, giftees_distinct, giftees_take_part, is_row_of, rows_reference_events,
    rows_unique, takes_part, users_unique, Participation, User,
};
use vstd::prelude::*;

verus! {

/// Whether no two users share an id.
#[verifier::loop_isolation(false)]
pub fn check_users_unique(users: &Vec<User>) -> (ok: bool)
    ensures
        ok == users_unique(users@),
{
    reveal(users_unique);
    let mut j: usize = 0;
    while j < users.len()
        invariant
            j <= users.len(),
            forall|a: int, b: int|
                0 <= a < b < j ==> (#[trigger] users@[a]).id != (#[trigger] users@[b]).id,
        decreases users.len() - j,
    {
        let mut i: usize = 0;
        while i < j
            invariant
                i <= j < users.len(),
                forall|a: int| 0 <= a < i ==> (#[trigger] users@[a]).id != users@[j as int].id,
            decreases j - i,
        {
            if users[i].id == users[j].id {
                return false;
            }
            i += 1;
        }
        j += 1;
    }
    true
}

/// Whether no event occurs twice.
#[verifier::loop_isolation(false)]
pub fn check_events_unique(events: &Vec<i32>) -> (ok: bool)
    ensures
        ok == events@.no_duplicates(),
{
    let mut j: usize = 0;
    while j < events.len()
        invariant
            j <= events.len(),
            forall|a: int, b: int| 0 <= a < b < j ==> events@[a] != events@[b],
        decreases events.len() - j,
    {
        let mut i: usize = 0;
        while i < j
            invariant
                i <= j < events.len(),
                forall|a: int| 0 <= a < i ==> events@[a] != events@[j as int],
            decreases j - i,
        {
            if events[i] == events[j] {
                return false;
            }
            i += 1;
        }
        j += 1;
    }
    true
}

fn contains_event(events: &Vec<i32>, year: i32) -> (found: bool)
    ensures
        found == events@.contains(year),
{
    let mut i: usize = 0;
    while i < events.len()
        invariant
            i <= events.len(),
            forall|a: int| 0 <= a < i ==> events@[a] != year,
        decreases events.len() - i,
    {
        if events[i] == year {
            return true;
        }
        i += 1;
    }
    false
}

/// Whether every row belongs to an event that exists.
#[verifier::loop_isolation(false)]
pub fn check_rows_reference_events(rows: &Vec<Participation>, events: &Vec<i32>) -> (ok: bool)
    ensures
        ok == rows_reference_events(rows@, events@),
{
    reveal(rows_reference_events);
    let mut i: usize = 0;
    while i < rows.len()
        invariant
            i <= rows.len(),
            forall|a: int| 0 <= a < i ==> events@.contains((#[trigger] rows@[a]).event),
        decreases rows.len() - i,
    {
        if !contains_event(events, rows[i].event) {
            return false;
        }
        i += 1;
    }
    true
}

/// Whether a user is in an event at most once.
#[verifier::loop_isolation(false)]
pub fn check_rows_unique(rows: &Vec<Participation>) -> (ok: bool)
    ensures
        ok == rows_unique(rows@),
{
    reveal(rows_unique);
    let mut j: usize = 0;
    while j < rows.len()
        invariant
            j <= rows.len(),
            forall|a: int, b: int|
                0 <= a < b < j ==> !is_row_of(
                    #[trigger] rows@[a],
                    (#[trigger] rows@[b]).event,
                    rows@[b].user,
                ),
        decreases rows.len() - j,
    {
        let mut i: usize = 0;
        while i < j
            invariant
                i <= j < rows.len(),
                forall|a: int|
                    0 <= a < i ==> !is_row_of(
                        #[trigger] rows@[a],
                        rows@[j as int].event,
                        rows@[j as int].user,
                    ),
            decreases j - i,
        {
            if rows[i].event == rows[j].event && rows[i].user == rows[j].user {
                return false;
            }
            i += 1;
        }
        j += 1;
    }
    true
}

/// Whether within each event either every row has a giftee or none has.
#[verifier::loop_isolation(false)]
pub fn check_drawn_together(rows: &Vec<Participation>) -> (ok: bool)
    ensures
        ok == drawn_together(rows@),
{
    reveal(drawn_together);
    let mut i: usize = 0;
    while i < rows.len()
        invariant
            i <= rows.len(),
            forall|a: int, b: int|
                0 <= a < i && 0 <= b < rows.len() && (#[trigger] rows@[a]).event == (
                #[trigger] rows@[b]).event && rows@[a].giftee is None ==> rows@[b].giftee is None,
        decreases rows.len() - i,
    {
        if rows[i].giftee.is_none() {
            let mut j: usize = 0;
            while j < rows.len()
                invariant
                    j <= rows.len(),
                    i < rows.len(),
                    rows@[i as int].giftee is None,
                    forall|b: int|
                        0 <= b < j && (#[trigger] rows@[b]).event == rows@[i as int].event
                            ==> rows@[b].giftee is None,
                decreases rows.len() - j,
            {
                if rows[j].event == rows[i].event && rows[j].giftee.is_some() {
                    return false;
                }
                j += 1;
            }
        }
        i += 1;
    }
    true
}

fn has_row(rows: &Vec<Participation>, year: i32, user: u64) -> (found: bool)
    ensures
        found == takes_part(rows@, year, user),
{
    let mut i: usize = 0;
    while i < rows.len()
        invariant
            i <= rows.len(),
            forall|a: int| 0 <= a < i ==> !is_row_of(#[trigger] rows@[a], year, user),
        decreases rows.len() - i,
    {
        if rows[i].event == year && rows[i].user == user {
            assert(is_row_of(rows@[i as int], year, user));
            return true;
        }
        i += 1;
    }
    false
}

/// Whether every giftee is another participant of the same event.
#[verifier::loop_isolation(false)]
pub fn check_giftees_take_part(rows: &Vec<Participation>) -> (ok: bool)
    ensures
        ok == giftees_take_part(rows@),
{
    reveal(giftees_take_part);
    let mut i: usize = 0;
    while i < rows.len()
        invariant
            i <= rows.len(),
            forall|a: int|
                0 <= a < i && (#[trigger] rows@[a]).giftee is Some ==> {
                    &&& rows@[a].giftee->0 != rows@[a].user
                    &&& takes_part(rows@, rows@[a].event, rows@[a].giftee->0)
                },
        decreases rows.len() - i,
    {
        match rows[i].giftee {
            Some(giftee) => {
                if giftee == rows[i].user || !has_row(rows, rows[i].event, giftee) {
                    return false;
                }
            },
            None => {},
        }
        i += 1;
    }
    true
}

/// Whether within each event nobody is the giftee of two participants.
#[verifier::loop_isolation(false)]
pub fn check_giftees_distinct(rows: &Vec<Participation>) -> (ok: bool)
    ensures
        ok == giftees_distinct(rows@),
{
    reveal(giftees_distinct);
    let mut j: usize = 0;
    while j < rows.len()
        invariant
            j <= rows.len(),
            forall|a: int, b: int|
                0 <= a < b < j && (#[trigger] rows@[a]).event == (#[trigger] rows@[b]).event
                    && rows@[a].giftee is Some ==> rows@[a].giftee != rows@[b].giftee,
        decreases rows.len() - j,
    {
        let mut i: usize = 0;
        while i < j
            invariant
                i <= j < rows.len(),
                forall|a: int|
                    0 <= a < i && (#[trigger] rows@[a]).event == rows@[j as int].event
                        && rows@[a].giftee is Some ==> rows@[a].giftee != rows@[j as int].giftee,
            decreases j - i,
        {
            if rows[i].event == rows[j].event {
                match (rows[i].giftee, rows[j].giftee) {
                    (Some(first), Some(second)) => {
                        if first == second {
                            return false;
                        }
                    },
                    _ => {},
                }
            }
            i += 1;
        }
        j += 1;
    }
    true
}

} // verus!
