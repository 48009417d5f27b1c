//! What a draw has to deliver, stated over users, and how that relates to
//! what the solver computes over positions in the roster.

use crate::history::{
    historical_giftee, is_latest_before, is_recent_window, is_restriction_entry,
    is_restriction_table, none_before, window_bound,
};
use crate::model::{fits_roster, givers, StoreState};
use crate::solver::{
    assignment_exists, repeats, respects_hard_restrictions, valid_assignment, Weight,
};
use vstd::prelude::*;

verus! {

/// The most recent events before `year`, latest first, as far as the solver
/// looks back.
pub open spec fn recent_window(events: Seq<i32>, year: i32) -> Seq<i32> {
    choose|window: Seq<i32>| is_recent_window(events, year, window)
}

/// The giftee that `user` had in entry `k` of the window of `year`, if there
/// is such an entry and the user had a giftee in it.
pub open spec fn past_giftee(state: StoreState, year: i32, user: u64, k: int) -> Option<u64> {
    let window = recent_window(state.events, year);
    if k < window.len() {
        state.giftee_of(window[k], user)
    } else {
        None
    }
}

/// No pair repeats a pairing from a prior event whose weight is zero.
pub open spec fn avoids_forbidden_repeats(
    state: StoreState,
    year: i32,
    pairs: Seq<(u64, u64)>,
    weights: [Weight; 3],
) -> bool {
    forall|i: int, k: int|
        0 <= i < pairs.len() && 0 <= k < 3 && weights[k].forbids() ==> #[trigger] past_giftee(
            state,
            year,
            pairs[i].0,
            k,
        ) != Some(pairs[i].1)
}

/// The pairs are a draw for the event of `year`: they assign its roster to
/// itself and repeat no forbidden pairing.
pub open spec fn is_valid_draw(
    state: StoreState,
    year: i32,
    pairs: Seq<(u64, u64)>,
    weights: [Weight; 3],
) -> bool {
    fits_roster(state.roster(year), pairs) && avoids_forbidden_repeats(state, year, pairs, weights)
}

/// The event of `year` has at least two participants, and some draw for it
/// exists.
pub open spec fn draw_exists(state: StoreState, year: i32, weights: [Weight; 3]) -> bool {
    state.roster(year).len() >= 2 && exists|pairs: Seq<(u64, u64)>|
        is_valid_draw(state, year, pairs, weights)
}

/// Two windows of the same events and year agree as far as both reach.
proof fn lemma_windows_agree(events: Seq<i32>, year: i32, a: Seq<i32>, b: Seq<i32>, k: int)
    requires
        is_recent_window(events, year, a),
        is_recent_window(events, year, b),
        0 <= k <= a.len(),
        k <= b.len(),
    ensures
        forall|j: int| 0 <= j < k ==> a[j] == b[j],
    decreases k,
{
    if k > 0 {
        lemma_windows_agree(events, year, a, b, k - 1);
        let j = k - 1;
        assert(is_latest_before(events, window_bound(year, a, j), a[j]));
        assert(is_latest_before(events, window_bound(year, b, j), b[j]));
        assert(window_bound(year, a, j) == window_bound(year, b, j));
        let x = choose|x: int| 0 <= x < events.len() && events[x] == a[j];
        let y = choose|y: int| 0 <= y < events.len() && events[y] == b[j];
        assert(events[x] <= b[j]);
        assert(events[y] <= a[j]);
    }
}

/// The events and the year determine the window.
pub proof fn lemma_recent_window_is_unique(events: Seq<i32>, year: i32, window: Seq<i32>)
    requires
        is_recent_window(events, year, window),
    ensures
        window == recent_window(events, year),
{
    let other = recent_window(events, year);
    assert(is_recent_window(events, year, other));
    let short = if window.len() <= other.len() {
        window
    } else {
        other
    };
    let long = if window.len() <= other.len() {
        other
    } else {
        window
    };
    let k = short.len() as int;
    lemma_windows_agree(events, year, short, long, k);
    if short.len() < long.len() {
        assert(none_before(events, window_bound(year, short, k)));
        assert(is_latest_before(events, window_bound(year, long, k), long[k]));
        assert(window_bound(year, short, k) == window_bound(year, long, k));
        let x = choose|x: int| 0 <= x < events.len() && events[x] == long[k];
        assert(events[x] >= window_bound(year, short, k));
    }
    assert(window =~= other);
}

/// The pairs that a solution over positions stands for.
pub open spec fn pairs_of(roster: Seq<u64>, solution: Seq<usize>) -> Seq<(u64, u64)> {
    Seq::new(roster.len(), |i: int| (roster[i], roster[solution[i] as int]))
}

/// A solution of the solver, read as pairs of users, is a draw.
pub proof fn lemma_solution_is_draw(
    state: StoreState,
    year: i32,
    table: Seq<[usize; 3]>,
    solution: Seq<usize>,
    weights: [Weight; 3],
)
    requires
        state.roster(year).no_duplicates(),
        is_restriction_table(
            table,
            state,
            state.roster(year),
            recent_window(state.events, year),
        ),
        valid_assignment(solution, state.roster(year).len(), table, weights),
    ensures
        is_valid_draw(state, year, pairs_of(state.roster(year), solution), weights),
{
    let roster = state.roster(year);
    let window = recent_window(state.events, year);
    let pairs = pairs_of(roster, solution);
    assert(givers(pairs) =~= roster);
    assert forall|j: int| 0 <= j < pairs.len() implies (#[trigger] pairs[j]).1 != pairs[j].0
        && roster.contains(pairs[j].1) by {
        assert(solution[j] != j);
        assert(roster[solution[j] as int] == pairs[j].1);
    }
    assert forall|i: int, k: int|
        0 <= i < pairs.len() && 0 <= k < 3 && weights[k].forbids() implies #[trigger] past_giftee(
        state,
        year,
        pairs[i].0,
        k,
    ) != Some(pairs[i].1) by {
        let past = past_giftee(state, year, pairs[i].0, k);
        assert(past == historical_giftee(state, roster, window, i, k));
        assert(is_restriction_entry(table[i][k], state, roster, window, i, k));
        assert(!repeats(solution, table, i, k));
        if past == Some(pairs[i].1) {
            assert(roster[solution[i] as int] == pairs[i].1);
            assert(roster.contains(pairs[i].1));
            assert(roster[table[i][k] as int] == roster[solution[i] as int]);
        }
    }
}

/// The positions that a draw stands for.
pub open spec fn solution_of(roster: Seq<u64>, pairs: Seq<(u64, u64)>) -> Seq<usize> {
    Seq::new(roster.len(), |i: int| roster.index_of(pairs[i].1) as usize)
}

/// A draw, read as positions in the roster, is a solution of the solver.
pub proof fn lemma_draw_is_solution(
    state: StoreState,
    year: i32,
    table: Seq<[usize; 3]>,
    pairs: Seq<(u64, u64)>,
    weights: [Weight; 3],
)
    requires
        state.roster(year).no_duplicates(),
        state.roster(year).len() <= usize::MAX,
        is_restriction_table(
            table,
            state,
            state.roster(year),
            recent_window(state.events, year),
        ),
        is_valid_draw(state, year, pairs, weights),
    ensures
        valid_assignment(
            solution_of(state.roster(year), pairs),
            state.roster(year).len(),
            table,
            weights,
        ),
{
    let roster = state.roster(year);
    let window = recent_window(state.events, year);
    let solution = solution_of(roster, pairs);
    assert(givers(pairs).len() == pairs.len());
    assert forall|i: int| 0 <= i < roster.len() implies 0 <= #[trigger] solution[i] < roster.len()
        && roster[solution[i] as int] == pairs[i].1 && pairs[i].0 == roster[i] by {
        assert(roster.contains(pairs[i].1));
        assert(givers(pairs)[i] == pairs[i].0);
    }
    assert forall|i: int, j: int|
        0 <= i < solution.len() && 0 <= j < solution.len() && i != j implies solution[i]
        != solution[j] by {
        if i < j {
            assert(pairs[i].1 != pairs[j].1);
        } else {
            assert(pairs[j].1 != pairs[i].1);
        }
    }
    assert forall|i: int| 0 <= i < solution.len() implies solution[i] != i by {
        assert(pairs[i].1 != pairs[i].0);
    }
    assert forall|i: int, k: int|
        0 <= i < solution.len() && 0 <= k < 3 && weights[k].forbids() implies !#[trigger] repeats(
        solution,
        table,
        i,
        k,
    ) by {
        let past = past_giftee(state, year, pairs[i].0, k);
        assert(past != Some(pairs[i].1));
        assert(past == historical_giftee(state, roster, window, i, k));
        assert(is_restriction_entry(table[i][k], state, roster, window, i, k));
    }
}

/// The roster with everybody giving to the participant after them, and the
/// last to the first.
pub open spec fn rotation(roster: Seq<u64>) -> Seq<(u64, u64)> {
    Seq::new(
        roster.len(),
        |i: int|
            (
                roster[i],
                roster[if i + 1 < roster.len() {
                    i + 1
                } else {
                    0
                }],
            ),
    )
}

/// A draw gives every participant of the roster, in roster order, a giftee
/// who is another participant, and no two participants the same giftee: the
/// giftees are the roster rearranged, with nobody left in place.
pub proof fn lemma_draw_is_derangement(
    state: StoreState,
    year: i32,
    pairs: Seq<(u64, u64)>,
    weights: [Weight; 3],
)
    requires
        is_valid_draw(state, year, pairs, weights),
    ensures
        pairs.len() == state.roster(year).len(),
        forall|i: int| 0 <= i < pairs.len() ==> (#[trigger] pairs[i]).0 == state.roster(year)[i],
        forall|i: int| 0 <= i < pairs.len() ==> (#[trigger] pairs[i]).1 != pairs[i].0,
        forall|i: int| 0 <= i < pairs.len() ==> state.roster(year).contains((#[trigger] pairs[i]).1),
        forall|i: int, j: int|
            0 <= i < pairs.len() && 0 <= j < pairs.len() && i != j ==> (#[trigger] pairs[i]).1 != (
            #[trigger] pairs[j]).1,
{
    assert(givers(pairs).len() == pairs.len());
    assert forall|i: int| 0 <= i < pairs.len() implies (#[trigger] pairs[i]).0 == state.roster(
        year,
    )[i] by {
        assert(givers(pairs)[i] == pairs[i].0);
    }
    assert forall|i: int, j: int|
        0 <= i < pairs.len() && 0 <= j < pairs.len() && i != j implies (#[trigger] pairs[i]).1 != (
    #[trigger] pairs[j]).1 by {
        if i < j {
            assert(pairs[i].1 != pairs[j].1);
        } else {
            assert(pairs[j].1 != pairs[i].1);
        }
    }
}

/// The participants that the pairs give to, in the order of the pairs.
pub open spec fn giftees(pairs: Seq<(u64, u64)>) -> Seq<u64> {
    pairs.map_values(|pair: (u64, u64)| pair.1)
}

/// In a draw everybody is given to: the giftees are exactly the
/// participants, so that the draw is a one-to-one assignment of the roster
/// onto itself.
pub proof fn lemma_draw_is_onto(
    state: StoreState,
    year: i32,
    pairs: Seq<(u64, u64)>,
    weights: [Weight; 3],
)
    requires
        state.roster(year).no_duplicates(),
        is_valid_draw(state, year, pairs, weights),
    ensures
        giftees(pairs).to_set() == state.roster(year).to_set(),
        forall|user: u64|
            state.roster(year).contains(user) ==> exists|i: int|
                0 <= i < pairs.len() && (#[trigger] pairs[i]).1 == user,
{
    let roster = state.roster(year);
    let given = giftees(pairs);
    lemma_draw_is_derangement(state, year, pairs, weights);
    assert(given.no_duplicates()) by {
        assert forall|i: int, j: int|
            0 <= i < given.len() && 0 <= j < given.len() && i != j implies given[i] != given[j] by {
            assert(pairs[i].1 != pairs[j].1);
        }
    }
    given.unique_seq_to_set();
    roster.unique_seq_to_set();
    vstd::seq_lib::seq_to_set_is_finite(given);
    vstd::seq_lib::seq_to_set_is_finite(roster);
    assert(given.to_set().subset_of(roster.to_set())) by {
        assert forall|user: u64| given.to_set().contains(user) implies roster.to_set().contains(
            user,
        ) by {
            let i = choose|i: int| 0 <= i < given.len() && given[i] == user;
            assert(roster.contains(pairs[i].1));
        }
    }
    vstd::set_lib::lemma_subset_equality(given.to_set(), roster.to_set());
    assert forall|user: u64| roster.contains(user) implies exists|i: int|
        0 <= i < pairs.len() && (#[trigger] pairs[i]).1 == user by {
        assert(roster.to_set().contains(user));
        assert(given.to_set().contains(user));
        assert(given.contains(user));
        let i = choose|i: int| 0 <= i < given.len() && given[i] == user;
        assert(pairs[i].1 == user);
    }
}

/// A draw never gives a participant the giftee they had in a prior event
/// whose weight is zero.
pub proof fn lemma_draw_avoids_forbidden_repeats(
    state: StoreState,
    year: i32,
    pairs: Seq<(u64, u64)>,
    weights: [Weight; 3],
    i: int,
    k: int,
)
    requires
        is_valid_draw(state, year, pairs, weights),
        0 <= i < pairs.len(),
        0 <= k < 3,
        weights[k].forbids(),
    ensures
        past_giftee(state, year, state.roster(year)[i], k) != Some(pairs[i].1),
{
    assert(givers(pairs)[i] == pairs[i].0);
    assert(past_giftee(state, year, pairs[i].0, k) != Some(pairs[i].1));
}

/// An event with at least two participants, none of whom had a giftee in a
/// prior event whose weight is zero, has a draw: the rotation of its roster.
pub proof fn lemma_unrestricted_event_has_draw(state: StoreState, year: i32, weights: [Weight; 3])
    requires
        state.roster(year).no_duplicates(),
        state.roster(year).len() >= 2,
        forall|i: int, k: int|
            0 <= i < state.roster(year).len() && 0 <= k < 3 && weights[k].forbids()
                ==> #[trigger] past_giftee(state, year, state.roster(year)[i], k) is None,
    ensures
        is_valid_draw(state, year, rotation(state.roster(year)), weights),
        draw_exists(state, year, weights),
{
    let roster = state.roster(year);
    let pairs = rotation(roster);
    assert(givers(pairs) =~= roster);
    assert forall|i: int, k: int|
        0 <= i < pairs.len() && 0 <= k < 3 && weights[k].forbids() implies #[trigger] past_giftee(
        state,
        year,
        pairs[i].0,
        k,
    ) != Some(pairs[i].1) by {
        assert(past_giftee(state, year, roster[i], k) is None);
    }
}

} // verus!
