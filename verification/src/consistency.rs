//! Why the operations of the store keep its tables consistent.

use crate::model::{
    assigns_roster, drawn_together, fits_roster, giftees_distinct, giftees_take_part, givers,
    has_pair, in_event,
    is_row_of, pair_index, pair_of, roster_of, row_user, rows_reference_events, rows_unique,
    takes_part, with_giftees, Participation,
};
use vstd::prelude::*;

verus! {

/// A sequence whose elements all satisfy `pred` is its own filter.
pub proof fn lemma_filter_keeps_all<A>(s: Seq<A>, pred: spec_fn(A) -> bool)
    requires
        forall|i: int| 0 <= i < s.len() ==> pred(#[trigger] s[i]),
    ensures
        s.filter(pred) == s,
    decreases s.len(),
{
    reveal(Seq::filter);
    if s.len() > 0 {
        lemma_filter_keeps_all(s.drop_last(), pred);
        assert(s.drop_last().push(s.last()) =~= s);
    }
}

/// Filtering a sequence in which `idx` is the only element that fails `pred`
/// removes that element.
pub proof fn lemma_filter_drops_one<A>(s: Seq<A>, idx: int, pred: spec_fn(A) -> bool)
    requires
        0 <= idx < s.len(),
        !pred(s[idx]),
        forall|i: int| 0 <= i < s.len() && i != idx ==> pred(#[trigger] s[i]),
    ensures
        s.filter(pred) == s.remove(idx),
    decreases s.len(),
{
    reveal(Seq::filter);
    let init = s.drop_last();
    if idx == s.len() - 1 {
        lemma_filter_keeps_all(init, pred);
        assert(s.remove(idx) =~= init);
    } else {
        lemma_filter_drops_one(init, idx, pred);
        assert(init.remove(idx).push(s.last()) =~= s.remove(idx));
    }
}

/// Removing one element that satisfies `pred` shortens the filter by one.
pub proof fn lemma_filter_len_remove<A>(s: Seq<A>, idx: int, pred: spec_fn(A) -> bool)
    requires
        0 <= idx < s.len(),
    ensures
        s.remove(idx).filter(pred).len() + (if pred(s[idx]) {
            1int
        } else {
            0int
        }) == s.filter(pred).len(),
{
    let front = s.take(idx);
    let back = s.skip(idx + 1);
    let one = seq![s[idx]];
    assert(s =~= (front + one) + back);
    assert(s.remove(idx) =~= front + back);
    Seq::filter_distributes_over_add(front + one, back, pred);
    Seq::filter_distributes_over_add(front, one, pred);
    Seq::filter_distributes_over_add(front, back, pred);
    assert(one =~= Seq::<A>::empty().push(s[idx]));
    Seq::<A>::empty().lemma_filter_len_push(pred, s[idx]);
    Seq::<A>::empty().lemma_filter_len(pred);
}

/// Two rows of one user in one event are the same row.
pub proof fn lemma_row_is_unique(rows: Seq<Participation>, a: int, b: int)
    requires
        rows_unique(rows),
        0 <= a < rows.len(),
        0 <= b < rows.len(),
        rows[a].event == rows[b].event,
        rows[a].user == rows[b].user,
    ensures
        a == b,
{
    reveal(rows_unique);
    if a < b {
        assert(!is_row_of(rows[a], rows[b].event, rows[b].user));
    } else if b < a {
        assert(!is_row_of(rows[b], rows[a].event, rows[a].user));
    }
}

/// Where one row of an event lacks a giftee, every row of it does.
pub proof fn lemma_drawn_together(rows: Seq<Participation>, a: int, b: int)
    requires
        drawn_together(rows),
        0 <= a < rows.len(),
        0 <= b < rows.len(),
        rows[a].event == rows[b].event,
        rows[a].giftee is None,
    ensures
        rows[b].giftee is None,
{
    reveal(drawn_together);
}

/// A giftee is another participant of the same event.
pub proof fn lemma_giftee_takes_part(rows: Seq<Participation>, i: int)
    requires
        giftees_take_part(rows),
        0 <= i < rows.len(),
        rows[i].giftee is Some,
    ensures
        rows[i].giftee->0 != rows[i].user,
        takes_part(rows, rows[i].event, rows[i].giftee->0),
{
    reveal(giftees_take_part);
}

/// A row appended to the table is appended to the roster of its event and
/// to no other.
pub proof fn lemma_roster_push(rows: Seq<Participation>, row: Participation, year: i32)
    ensures
        roster_of(rows.push(row), year) == if row.event == year {
            roster_of(rows, year).push(row.user)
        } else {
            roster_of(rows, year)
        },
{
    rows.lemma_filter_push(row, in_event(year));
    if row.event == year {
        assert(rows.filter(in_event(year)).push(row).map_values(row_user()) =~= roster_of(
            rows,
            year,
        ).push(row.user));
    }
}

/// Dropping the last row keeps the rows free of doubles.
pub proof fn lemma_rows_unique_drop_last(rows: Seq<Participation>)
    requires
        rows_unique(rows),
        rows.len() > 0,
    ensures
        rows_unique(rows.drop_last()),
{
    reveal(rows_unique);
    let init = rows.drop_last();
    assert forall|i: int, j: int| 0 <= i < j < init.len() implies !is_row_of(
        #[trigger] init[i],
        (#[trigger] init[j]).event,
        init[j].user,
    ) by {
        assert(init[i] == rows[i] && init[j] == rows[j]);
    }
}

/// The roster of an event holds exactly the users that have a row in it, and
/// each of them once.
pub proof fn lemma_roster(rows: Seq<Participation>, year: i32)
    requires
        rows_unique(rows),
    ensures
        forall|user: u64| #[trigger]
            roster_of(rows, year).contains(user) <==> takes_part(rows, year, user),
        roster_of(rows, year).no_duplicates(),
    decreases rows.len(),
{
    let roster = roster_of(rows, year);
    if rows.len() == 0 {
        rows.lemma_filter_len(in_event(year));
        assert(roster =~= Seq::<u64>::empty());
    } else {
        let init = rows.drop_last();
        let last = rows.last();
        let before = roster_of(init, year);
        assert(rows =~= init.push(last));
        lemma_roster_push(init, last, year);
        lemma_rows_unique_drop_last(rows);
        lemma_roster(init, year);
        assert forall|user: u64| #[trigger]
            roster.contains(user) <==> takes_part(rows, year, user) by {
            if takes_part(rows, year, user) {
                let k = choose|k: int| 0 <= k < rows.len() && is_row_of(#[trigger] rows[k], year, user);
                if k < init.len() {
                    assert(is_row_of(init[k], year, user));
                    assert(before.contains(user));
                    let j = choose|j: int| 0 <= j < before.len() && before[j] == user;
                    assert(roster[j] == user);
                } else {
                    assert(roster[roster.len() - 1] == user);
                }
            }
            if roster.contains(user) {
                let j = choose|j: int| 0 <= j < roster.len() && roster[j] == user;
                if j < before.len() {
                    assert(before[j] == user);
                    assert(before.contains(user));
                    let k = choose|k: int|
                        0 <= k < init.len() && is_row_of(#[trigger] init[k], year, user);
                    assert(is_row_of(rows[k], year, user));
                } else {
                    assert(is_row_of(rows[rows.len() - 1], year, user));
                }
            }
        }
        if last.event == year {
            assert forall|i: int, j: int|
                0 <= i < roster.len() && 0 <= j < roster.len() && i != j implies roster[i]
                != roster[j] by {
                let top = before.len() as int;
                if i < top && j < top {
                    assert(before[i] != before[j]);
                } else {
                    let low = if i < top {
                        i
                    } else {
                        j
                    };
                    if before[low] == last.user {
                        assert(before.contains(last.user));
                        let k = choose|k: int|
                            0 <= k < init.len() && is_row_of(#[trigger] init[k], year, last.user);
                        assert(rows[k] == init[k]);
                        lemma_row_is_unique(rows, k, rows.len() - 1);
                    }
                }
            }
        }
    }
}

/// Tables that agree on the event and the user of every row have the same
/// rosters.
pub proof fn lemma_same_roster(a: Seq<Participation>, b: Seq<Participation>, year: i32)
    requires
        a.len() == b.len(),
        forall|i: int|
            0 <= i < a.len() ==> (#[trigger] a[i]).event == b[i].event && a[i].user == b[i].user,
    ensures
        roster_of(a, year) == roster_of(b, year),
    decreases a.len(),
{
    if a.len() == 0 {
        assert(a =~= b);
    } else {
        let a0 = a.drop_last();
        let b0 = b.drop_last();
        assert forall|i: int| 0 <= i < a0.len() implies (#[trigger] a0[i]).event == b0[i].event
            && a0[i].user == b0[i].user by {
            assert(a0[i] == a[i] && b0[i] == b[i]);
        }
        lemma_same_roster(a0, b0, year);
        assert(a =~= a0.push(a.last()));
        assert(b =~= b0.push(b.last()));
        lemma_roster_push(a0, a.last(), year);
        lemma_roster_push(b0, b.last(), year);
        assert(a[a.len() - 1].event == b[a.len() - 1].event);
    }
}

/// Appending a row without a giftee, for a user who is not yet in its event
/// and whose event has no giftees, keeps the rows consistent.
pub proof fn lemma_rows_push(rows: Seq<Participation>, events: Seq<i32>, row: Participation)
    requires
        rows_reference_events(rows, events),
        rows_unique(rows),
        drawn_together(rows),
        giftees_take_part(rows),
        giftees_distinct(rows),
        events.contains(row.event),
        row.giftee is None,
        !takes_part(rows, row.event, row.user),
        forall|i: int|
            0 <= i < rows.len() && (#[trigger] rows[i]).event == row.event
                ==> rows[i].giftee is None,
    ensures
        rows_reference_events(rows.push(row), events),
        rows_unique(rows.push(row)),
        drawn_together(rows.push(row)),
        giftees_take_part(rows.push(row)),
        giftees_distinct(rows.push(row)),
{
    let after = rows.push(row);
    let n = rows.len() as int;
    assert(rows_reference_events(after, events)) by {
        reveal(rows_reference_events);
        assert forall|i: int| 0 <= i < after.len() implies events.contains(
            (#[trigger] after[i]).event,
        ) by {
            if i < n {
                assert(after[i] == rows[i]);
            }
        }
    }
    assert(rows_unique(after)) by {
        reveal(rows_unique);
        assert forall|i: int, j: int| 0 <= i < j < after.len() implies !is_row_of(
            #[trigger] after[i],
            (#[trigger] after[j]).event,
            after[j].user,
        ) by {
            assert(after[i] == rows[i]);
            if j < n {
                assert(after[j] == rows[j]);
            } else if is_row_of(rows[i], row.event, row.user) {
                assert(takes_part(rows, row.event, row.user));
            }
        }
    }
    assert(drawn_together(after)) by {
        reveal(drawn_together);
        assert forall|i: int, j: int|
            0 <= i < after.len() && 0 <= j < after.len() && (#[trigger] after[i]).event == (
            #[trigger] after[j]).event && after[i].giftee is None implies after[j].giftee is None by {
            if j < n {
                assert(after[j] == rows[j]);
                if i < n {
                    assert(after[i] == rows[i]);
                }
            }
        }
    }
    assert(giftees_take_part(after)) by {
        reveal(giftees_take_part);
        assert forall|i: int| 0 <= i < after.len() && (#[trigger] after[i]).giftee is Some implies {
            &&& after[i].giftee->0 != after[i].user
            &&& takes_part(after, after[i].event, after[i].giftee->0)
        } by {
            assert(after[i] == rows[i]);
            let ev = rows[i].event;
            let g = rows[i].giftee->0;
            let k = choose|k: int| 0 <= k < rows.len() && is_row_of(#[trigger] rows[k], ev, g);
            assert(is_row_of(after[k], ev, g));
        }
    }
    assert(giftees_distinct(after)) by {
        reveal(giftees_distinct);
        assert forall|i: int, j: int|
            0 <= i < j < after.len() && (#[trigger] after[i]).event == (#[trigger] after[j]).event
                && after[i].giftee is Some implies after[i].giftee != after[j].giftee by {
            assert(after[i] == rows[i]);
            if j < n {
                assert(after[j] == rows[j]);
            }
        }
    }
}

/// Deleting a row of an event that has no giftees keeps the rows consistent.
pub proof fn lemma_rows_remove(rows: Seq<Participation>, events: Seq<i32>, idx: int)
    requires
        rows_reference_events(rows, events),
        rows_unique(rows),
        drawn_together(rows),
        giftees_take_part(rows),
        giftees_distinct(rows),
        0 <= idx < rows.len(),
        rows[idx].giftee is None,
    ensures
        rows_reference_events(rows.remove(idx), events),
        rows_unique(rows.remove(idx)),
        drawn_together(rows.remove(idx)),
        giftees_take_part(rows.remove(idx)),
        giftees_distinct(rows.remove(idx)),
        !takes_part(rows.remove(idx), rows[idx].event, rows[idx].user),
{
    let after = rows.remove(idx);
    let src = |k: int|
        if k < idx {
            k
        } else {
            k + 1
        };
    assert(rows_reference_events(after, events)) by {
        reveal(rows_reference_events);
        assert forall|i: int| 0 <= i < after.len() implies events.contains(
            (#[trigger] after[i]).event,
        ) by {
            assert(after[i] == rows[src(i)]);
        }
    }
    assert(rows_unique(after)) by {
        reveal(rows_unique);
        assert forall|i: int, j: int| 0 <= i < j < after.len() implies !is_row_of(
            #[trigger] after[i],
            (#[trigger] after[j]).event,
            after[j].user,
        ) by {
            assert(after[i] == rows[src(i)]);
            assert(after[j] == rows[src(j)]);
        }
    }
    assert(drawn_together(after)) by {
        reveal(drawn_together);
        assert forall|i: int, j: int|
            0 <= i < after.len() && 0 <= j < after.len() && (#[trigger] after[i]).event == (
            #[trigger] after[j]).event && after[i].giftee is None implies after[j].giftee is None by {
            assert(after[i] == rows[src(i)]);
            assert(after[j] == rows[src(j)]);
        }
    }
    assert(giftees_distinct(after)) by {
        reveal(giftees_distinct);
        assert forall|i: int, j: int|
            0 <= i < j < after.len() && (#[trigger] after[i]).event == (#[trigger] after[j]).event
                && after[i].giftee is Some implies after[i].giftee != after[j].giftee by {
            assert(after[i] == rows[src(i)]);
            assert(after[j] == rows[src(j)]);
        }
    }
    assert(giftees_take_part(after)) by {
        assert forall|i: int| 0 <= i < after.len() && (#[trigger] after[i]).giftee is Some implies {
            &&& after[i].giftee->0 != after[i].user
            &&& takes_part(after, after[i].event, after[i].giftee->0)
        } by {
            let ev = after[i].event;
            let g = after[i].giftee->0;
            assert(after[i] == rows[src(i)]);
            lemma_giftee_takes_part(rows, src(i));
            if rows[src(i)].event == rows[idx].event {
                lemma_drawn_together(rows, idx, src(i));
            }
            let k = choose|k: int| 0 <= k < rows.len() && is_row_of(#[trigger] rows[k], ev, g);
            assert(k != idx);
            let k2 = if k < idx {
                k
            } else {
                k - 1
            };
            assert(after[k2] == rows[k]);
            assert(is_row_of(after[k2], ev, g));
        }
        reveal(giftees_take_part);
    }
    if takes_part(after, rows[idx].event, rows[idx].user) {
        let k = choose|k: int|
            0 <= k < after.len() && is_row_of(#[trigger] after[k], rows[idx].event, rows[idx].user);
        assert(after[k] == rows[src(k)]);
        lemma_row_is_unique(rows, src(k), idx);
    }
}

/// Some pair names `giftee` for `user`.
pub open spec fn names_giftee(pairs: Seq<(u64, u64)>, user: u64, giftee: Option<u64>) -> bool {
    exists|j: int|
        0 <= j < pairs.len() && (#[trigger] pairs[j]).0 == user && giftee == Some(pairs[j].1)
}

/// `after` is `rows` with the giftees of the event of `year` set as the
/// pairs say, and nothing else changed.
pub open spec fn is_assignment_of(
    after: Seq<Participation>,
    rows: Seq<Participation>,
    year: i32,
    pairs: Seq<(u64, u64)>,
) -> bool {
    &&& after.len() == rows.len()
    &&& forall|i: int|
        0 <= i < rows.len() ==> (#[trigger] after[i]).event == rows[i].event && after[i].user
            == rows[i].user
    &&& forall|i: int| 0 <= i < rows.len() && rows[i].event != year ==> #[trigger] after[i] == rows[i]
    &&& forall|i: int|
        0 <= i < rows.len() && rows[i].event == year ==> names_giftee(
            pairs,
            rows[i].user,
            (#[trigger] after[i]).giftee,
        )
}

/// How often a value occurs in a sequence without doubles: once if it
/// occurs, else not at all.
pub proof fn lemma_count_without_duplicates(s: Seq<u64>, x: u64)
    requires
        s.no_duplicates(),
    ensures
        s.to_multiset().count(x) == if s.contains(x) {
            1nat
        } else {
            0nat
        },
{
    s.to_multiset_ensures();
    s.lemma_multiset_has_no_duplicates();
}

/// Pairs that assign a roster have one pair for each of its members and for
/// nobody else.
pub proof fn lemma_assigns_roster(roster: Seq<u64>, pairs: Seq<(u64, u64)>)
    requires
        roster.no_duplicates(),
        givers(pairs).to_multiset() == roster.to_multiset(),
    ensures
        pairs.len() == roster.len(),
        givers(pairs).no_duplicates(),
        forall|user: u64| roster.contains(user) <==> #[trigger] has_pair(pairs, user),
{
    let named = givers(pairs);
    named.to_multiset_ensures();
    roster.to_multiset_ensures();
    roster.lemma_multiset_has_no_duplicates();
    named.lemma_multiset_has_no_duplicates_conv();
    assert forall|user: u64| roster.contains(user) <==> #[trigger] has_pair(pairs, user) by {
        if roster.contains(user) {
            assert(named.to_multiset().count(user) > 0);
            assert(named.contains(user));
            let j = choose|j: int| 0 <= j < named.len() && named[j] == user;
            assert(pairs[j].0 == user);
        }
        if has_pair(pairs, user) {
            let j = choose|j: int| 0 <= j < pairs.len() && (#[trigger] pairs[j]).0 == user;
            assert(named[j] == user);
            assert(named.contains(user));
            assert(roster.to_multiset().count(user) > 0);
        }
    }
}

/// As many pairs as the roster has members, each for a member and no two
/// for the same, are for the roster as a whole.
pub proof fn lemma_pairs_cover_roster(roster: Seq<u64>, pairs: Seq<(u64, u64)>)
    requires
        roster.no_duplicates(),
        pairs.len() == roster.len(),
        givers(pairs).no_duplicates(),
        forall|j: int| 0 <= j < pairs.len() ==> roster.contains((#[trigger] pairs[j]).0),
    ensures
        givers(pairs).to_multiset() == roster.to_multiset(),
{
    let named = givers(pairs);
    named.unique_seq_to_set();
    roster.unique_seq_to_set();
    vstd::seq_lib::seq_to_set_is_finite(named);
    vstd::seq_lib::seq_to_set_is_finite(roster);
    assert(named.to_set().subset_of(roster.to_set())) by {
        assert forall|user: u64| named.to_set().contains(user) implies roster.to_set().contains(
            user,
        ) by {
            let j = choose|j: int| 0 <= j < named.len() && named[j] == user;
            assert(roster.contains(pairs[j].0));
        }
    }
    vstd::set_lib::lemma_subset_equality(named.to_set(), roster.to_set());
    assert forall|user: u64|
        named.to_multiset().count(user) == roster.to_multiset().count(user) by {
        lemma_count_without_duplicates(named, user);
        lemma_count_without_duplicates(roster, user);
        assert(named.to_set().contains(user) == roster.to_set().contains(user));
    }
    assert(named.to_multiset() =~= roster.to_multiset());
}

/// Pairs in roster order assign the roster.
pub proof fn lemma_fitting_pairs_assign(roster: Seq<u64>, pairs: Seq<(u64, u64)>)
    requires
        fits_roster(roster, pairs),
    ensures
        assigns_roster(roster, pairs),
{
}

/// Where no participant has two pairs, two pairs for one participant are
/// the same pair.
pub proof fn lemma_pair_is_unique(pairs: Seq<(u64, u64)>, a: int, b: int)
    requires
        givers(pairs).no_duplicates(),
        0 <= a < pairs.len(),
        0 <= b < pairs.len(),
        pairs[a].0 == pairs[b].0,
    ensures
        a == b,
{
    assert(givers(pairs)[a] == pairs[a].0);
    assert(givers(pairs)[b] == pairs[b].0);
}

/// Where no participant has two pairs, each is given the giftee of their
/// pair.
pub proof fn lemma_pair_of(pairs: Seq<(u64, u64)>, j: int)
    requires
        givers(pairs).no_duplicates(),
        0 <= j < pairs.len(),
    ensures
        pair_of(pairs, pairs[j].0) == Some(pairs[j].1),
{
    let user = pairs[j].0;
    assert(has_pair(pairs, user));
    let k = pair_index(pairs, user);
    assert(0 <= k < pairs.len() && pairs[k].0 == user);
    lemma_pair_is_unique(pairs, j, k);
}

/// Pairs that are for the roster of an event have a pair for every row of
/// that event.
pub proof fn lemma_participant_has_pair(
    rows: Seq<Participation>,
    year: i32,
    pairs: Seq<(u64, u64)>,
    i: int,
)
    requires
        rows_unique(rows),
        givers(pairs).to_multiset() == roster_of(rows, year).to_multiset(),
        0 <= i < rows.len(),
        rows[i].event == year,
    ensures
        has_pair(pairs, rows[i].user),
{
    let roster = roster_of(rows, year);
    lemma_roster(rows, year);
    lemma_assigns_roster(roster, pairs);
    assert(is_row_of(rows[i], year, rows[i].user));
    assert(takes_part(rows, year, rows[i].user));
    assert(roster.contains(rows[i].user));
}

/// What `with_giftees` builds is the assignment of the rows.
pub proof fn lemma_with_giftees(rows: Seq<Participation>, year: i32, pairs: Seq<(u64, u64)>)
    requires
        rows_unique(rows),
        givers(pairs).to_multiset() == roster_of(rows, year).to_multiset(),
    ensures
        is_assignment_of(with_giftees(rows, year, pairs), rows, year, pairs),
{
    let after = with_giftees(rows, year, pairs);
    assert forall|i: int| 0 <= i < rows.len() && rows[i].event == year implies names_giftee(
        pairs,
        rows[i].user,
        (#[trigger] after[i]).giftee,
    ) by {
        lemma_participant_has_pair(rows, year, pairs, i);
        let j = pair_index(pairs, rows[i].user);
        assert(0 <= j < pairs.len() && pairs[j].0 == rows[i].user);
    }
}

/// An assignment of the rows is what `with_giftees` builds.
pub proof fn lemma_assignment_is_with_giftees(
    after: Seq<Participation>,
    rows: Seq<Participation>,
    year: i32,
    pairs: Seq<(u64, u64)>,
)
    requires
        rows_unique(rows),
        givers(pairs).to_multiset() == roster_of(rows, year).to_multiset(),
        is_assignment_of(after, rows, year, pairs),
    ensures
        after == with_giftees(rows, year, pairs),
{
    let built = with_giftees(rows, year, pairs);
    lemma_roster(rows, year);
    lemma_assigns_roster(roster_of(rows, year), pairs);
    assert forall|i: int| 0 <= i < rows.len() implies after[i] == built[i] by {
        if rows[i].event == year {
            let j = choose|j: int|
                0 <= j < pairs.len() && (#[trigger] pairs[j]).0 == rows[i].user
                    && after[i].giftee == Some(pairs[j].1);
            assert(names_giftee(pairs, rows[i].user, after[i].giftee));
            lemma_pair_of(pairs, j);
            assert(after[i].event == rows[i].event && after[i].user == rows[i].user);
        } else {
            assert(after[i] == rows[i]);
        }
    }
    assert(after =~= built);
}

/// An assignment keeps every row in its event.
pub proof fn lemma_assignment_references_events(
    after: Seq<Participation>,
    rows: Seq<Participation>,
    events: Seq<i32>,
    year: i32,
    pairs: Seq<(u64, u64)>,
)
    requires
        rows_reference_events(rows, events),
        is_assignment_of(after, rows, year, pairs),
    ensures
        rows_reference_events(after, events),
{
    reveal(rows_reference_events);
    assert forall|i: int| 0 <= i < after.len() implies events.contains(
        (#[trigger] after[i]).event,
    ) by {
        assert(after[i].event == rows[i].event);
    }
}

/// An assignment keeps the rows free of doubles.
pub proof fn lemma_assignment_unique(
    after: Seq<Participation>,
    rows: Seq<Participation>,
    year: i32,
    pairs: Seq<(u64, u64)>,
)
    requires
        rows_unique(rows),
        is_assignment_of(after, rows, year, pairs),
    ensures
        rows_unique(after),
{
    assert forall|i: int, j: int| 0 <= i < j < after.len() implies !is_row_of(
        #[trigger] after[i],
        (#[trigger] after[j]).event,
        after[j].user,
    ) by {
        if is_row_of(after[i], after[j].event, after[j].user) {
            lemma_row_is_unique(rows, i, j);
        }
    }
    reveal(rows_unique);
}

/// After an assignment every event is still drawn as a whole.
pub proof fn lemma_assignment_drawn_together(
    after: Seq<Participation>,
    rows: Seq<Participation>,
    year: i32,
    pairs: Seq<(u64, u64)>,
)
    requires
        drawn_together(rows),
        is_assignment_of(after, rows, year, pairs),
    ensures
        drawn_together(after),
{
    assert forall|i: int, j: int|
        0 <= i < after.len() && 0 <= j < after.len() && (#[trigger] after[i]).event == (
        #[trigger] after[j]).event && after[i].giftee is None implies after[j].giftee is None by {
        if rows[i].event != year {
            assert(after[i] == rows[i] && after[j] == rows[j]);
            lemma_drawn_together(rows, i, j);
        }
    }
    reveal(drawn_together);
}

/// After an assignment of the roster every giftee is another participant
/// of the same event.
pub proof fn lemma_assignment_giftees_take_part(
    after: Seq<Participation>,
    rows: Seq<Participation>,
    year: i32,
    pairs: Seq<(u64, u64)>,
)
    requires
        rows_unique(rows),
        giftees_take_part(rows),
        assigns_roster(roster_of(rows, year), pairs),
        is_assignment_of(after, rows, year, pairs),
    ensures
        giftees_take_part(after),
{
    let roster = roster_of(rows, year);
    lemma_roster(rows, year);
    assert forall|i: int| 0 <= i < after.len() && (#[trigger] after[i]).giftee is Some implies {
        &&& after[i].giftee->0 != after[i].user
        &&& takes_part(after, after[i].event, after[i].giftee->0)
    } by {
        let g = after[i].giftee->0;
        let ev = rows[i].event;
        if ev == year {
            let j = choose|j: int|
                0 <= j < pairs.len() && (#[trigger] pairs[j]).0 == rows[i].user
                    && after[i].giftee == Some(pairs[j].1);
            assert(roster.contains(pairs[j].1));
            assert(takes_part(rows, year, g));
        } else {
            assert(after[i] == rows[i]);
            lemma_giftee_takes_part(rows, i);
        }
        let k = choose|k: int| 0 <= k < rows.len() && is_row_of(#[trigger] rows[k], ev, g);
        assert(is_row_of(after[k], ev, g));
    }
    reveal(giftees_take_part);
}

/// After an assignment of the roster nobody is the giftee of two.
pub proof fn lemma_assignment_giftees_distinct(
    after: Seq<Participation>,
    rows: Seq<Participation>,
    year: i32,
    pairs: Seq<(u64, u64)>,
)
    requires
        rows_unique(rows),
        giftees_distinct(rows),
        assigns_roster(roster_of(rows, year), pairs),
        is_assignment_of(after, rows, year, pairs),
    ensures
        giftees_distinct(after),
{
    let roster = roster_of(rows, year);
    lemma_roster(rows, year);
    assert forall|i: int, j: int|
        0 <= i < j < after.len() && (#[trigger] after[i]).event == (#[trigger] after[j]).event
            && after[i].giftee is Some implies after[i].giftee != after[j].giftee by {
        if rows[i].event == year {
            assert(rows[j].event == year);
            let a = choose|a: int|
                0 <= a < pairs.len() && (#[trigger] pairs[a]).0 == rows[i].user
                    && after[i].giftee == Some(pairs[a].1);
            let b = choose|b: int|
                0 <= b < pairs.len() && (#[trigger] pairs[b]).0 == rows[j].user
                    && after[j].giftee == Some(pairs[b].1);
            if a == b {
                lemma_row_is_unique(rows, i, j);
            } else if a < b {
                assert(pairs[a].1 != pairs[b].1);
            } else {
                assert(pairs[b].1 != pairs[a].1);
            }
        } else {
            assert(after[i] == rows[i] && after[j] == rows[j]);
            assert(rows[i].giftee != rows[j].giftee) by {
                reveal(giftees_distinct);
            }
        }
    }
    reveal(giftees_distinct);
}

} // verus!
