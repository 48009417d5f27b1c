//! Which prior events a draw looks back on, and what it takes from them.

use crate::consistency::{lemma_assigns_roster, lemma_pair_is_unique, lemma_pairs_cover_roster};
use crate::model::{assigns_roster, givers, has_pair, StoreState};
use crate::solver::PREV_RELEVANT_EVENTS;
use vstd::prelude::*;

verus! {

/// `e` is the latest event before `bound`.
pub open spec fn is_latest_before(events: Seq<i32>, bound: int, e: i32) -> bool {
    &&& events.contains(e)
    &&& e < bound
    &&& forall|j: int| 0 <= j < events.len() && events[j] < bound ==> events[j] <= e
}

/// `e` is the latest event of all.
pub open spec fn is_latest_event(events: Seq<i32>, e: i32) -> bool {
    is_latest_before(events, i32::MAX + 1, e)
}

/// No event lies before `bound`.
pub open spec fn none_before(events: Seq<i32>, bound: int) -> bool {
    forall|j: int| 0 <= j < events.len() ==> events[j] >= bound
}

/// The year that entry `k` of the window has to lie before: the year of the
/// draw for the first entry, the entry before it for the others.
pub open spec fn window_bound(year: i32, window: Seq<i32>, k: int) -> int {
    if k == 0 {
        year as int
    } else {
        window[k - 1] as int
    }
}

/// `window` holds the most recent events before `year`, latest first: as
/// many as the solver looks back on, or all of them if there are fewer.
pub open spec fn is_recent_window(events: Seq<i32>, year: i32, window: Seq<i32>) -> bool {
    &&& window.len() <= PREV_RELEVANT_EVENTS
    &&& forall|k: int|
        0 <= k < window.len() ==> is_latest_before(
            events,
            window_bound(year, window, k),
            #[trigger] window[k],
        )
    &&& window.len() < PREV_RELEVANT_EVENTS ==> none_before(
        events,
        window_bound(year, window, window.len() as int),
    )
}

/// The giftee that participant `i` of the roster had in entry `k` of the
/// window, if there is such an entry and the participant had a giftee in it.
pub open spec fn historical_giftee(
    state: StoreState,
    roster: Seq<u64>,
    window: Seq<i32>,
    i: int,
    k: int,
) -> Option<u64> {
    if k < window.len() {
        state.giftee_of(window[k], roster[i])
    } else {
        None
    }
}

/// `entry` is what the restriction table holds for participant `i` and
/// recency `k`: the first position in the roster of the giftee they had then,
/// or the length of the roster where they had none or the giftee is not in
/// the roster.
pub open spec fn is_restriction_entry(
    entry: usize,
    state: StoreState,
    roster: Seq<u64>,
    window: Seq<i32>,
    i: int,
    k: int,
) -> bool {
    match historical_giftee(state, roster, window, i, k) {
        Some(giftee) => if roster.contains(giftee) {
            &&& entry < roster.len()
            &&& roster[entry as int] == giftee
            &&& forall|j: int| 0 <= j < entry ==> roster[j] != giftee
        } else {
            entry == roster.len()
        },
        None => entry == roster.len(),
    }
}

/// `table` is the restriction table of the roster over the window.
pub open spec fn is_restriction_table(
    table: Seq<[usize; 3]>,
    state: StoreState,
    roster: Seq<u64>,
    window: Seq<i32>,
) -> bool {
    &&& table.len() == roster.len()
    &&& forall|i: int, k: int|
        0 <= i < roster.len() && 0 <= k < 3 ==> is_restriction_entry(
            #[trigger] table[i][k],
            state,
            roster,
            window,
            i,
            k,
        )
}

/// The first position of `user` in the roster.
pub fn position_of(roster: &Vec<u64>, user: u64) -> (position: Option<usize>)
    ensures
        position is Some <==> roster@.contains(user),
        position is Some ==> {
            &&& position->0 < roster.len()
            &&& roster@[position->0 as int] == user
            &&& forall|j: int| 0 <= j < position->0 ==> roster@[j] != user
        },
{
    let mut i: usize = 0;
    while i < roster.len()
        invariant
            i <= roster.len(),
            forall|j: int| 0 <= j < i ==> roster@[j] != user,
        decreases roster.len() - i,
    {
        if roster[i] == user {
            return Some(i);
        }
        i += 1;
    }
    None
}

/// The position of the first pair that is for `user`.
pub fn find_pair(pairs: &Vec<(u64, u64)>, user: u64) -> (position: Option<usize>)
    ensures
        position is Some <==> has_pair(pairs@, user),
        position is Some ==> position->0 < pairs.len() && pairs@[position->0 as int].0 == user,
{
    let mut j: usize = 0;
    while j < pairs.len()
        invariant
            j <= pairs.len(),
            forall|a: int| 0 <= a < j ==> (#[trigger] pairs@[a]).0 != user,
        decreases pairs.len() - j,
    {
        if pairs[j].0 == user {
            return Some(j);
        }
        j += 1;
    }
    None
}

/// Whether the pairs assign the roster to itself, in whatever order they
/// stand.
pub fn check_pairs(roster: &Vec<u64>, pairs: &Vec<(u64, u64)>) -> (assigns: bool)
    requires
        roster@.no_duplicates(),
    ensures
        assigns == assigns_roster(roster@, pairs@),
{
    if pairs.len() != roster.len() {
        proof {
            if assigns_roster(roster@, pairs@) {
                lemma_assigns_roster(roster@, pairs@);
            }
        }
        return false;
    }
    let mut j: usize = 0;
    while j < pairs.len()
        invariant
            j <= pairs.len(),
            pairs.len() == roster.len(),
            roster@.no_duplicates(),
            forall|a: int| 0 <= a < j ==> roster@.contains((#[trigger] pairs@[a]).0),
            forall|a: int, b: int|
                0 <= a < b < j ==> (#[trigger] pairs@[a]).0 != (#[trigger] pairs@[b]).0,
            forall|a: int|
                0 <= a < j ==> (#[trigger] pairs@[a]).1 != pairs@[a].0 && roster@.contains(
                    pairs@[a].1,
                ),
            forall|a: int, b: int|
                0 <= a < b < j ==> (#[trigger] pairs@[a]).1 != (#[trigger] pairs@[b]).1,
        decreases pairs.len() - j,
    {
        let giver: u64 = pairs[j].0;
        let giftee: u64 = pairs[j].1;
        if position_of(roster, giver).is_none() {
            proof {
                if assigns_roster(roster@, pairs@) {
                    lemma_assigns_roster(roster@, pairs@);
                    assert(has_pair(pairs@, giver));
                }
            }
            return false;
        }
        if giftee == giver || position_of(roster, giftee).is_none() {
            return false;
        }
        let mut i: usize = 0;
        while i < j
            invariant
                i <= j < pairs.len(),
                roster@.no_duplicates(),
                giver == pairs@[j as int].0,
                giftee == pairs@[j as int].1,
                forall|a: int| 0 <= a < i ==> (#[trigger] pairs@[a]).0 != giver,
                forall|a: int| 0 <= a < i ==> (#[trigger] pairs@[a]).1 != giftee,
            decreases j - i,
        {
            if pairs[i].0 == giver {
                proof {
                    if assigns_roster(roster@, pairs@) {
                        lemma_assigns_roster(roster@, pairs@);
                        lemma_pair_is_unique(pairs@, i as int, j as int);
                    }
                }
                return false;
            }
            if pairs[i].1 == giftee {
                return false;
            }
            i += 1;
        }
        j += 1;
    }
    proof {
        assert(givers(pairs@).no_duplicates()) by {
            assert forall|a: int, b: int|
                0 <= a < givers(pairs@).len() && 0 <= b < givers(pairs@).len() && a
                    != b implies givers(pairs@)[a] != givers(pairs@)[b] by {
                if a < b {
                    assert(pairs@[a].0 != pairs@[b].0);
                } else {
                    assert(pairs@[b].0 != pairs@[a].0);
                }
            }
        }
        lemma_pairs_cover_roster(roster@, pairs@);
    }
    true
}

} // verus!
