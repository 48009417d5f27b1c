//! What holds of the store across its operations.

use crate::consistency::{
    lemma_assignment_drawn_together, lemma_assignment_giftees_distinct,
    lemma_assignment_giftees_take_part, lemma_assignment_references_events,
    lemma_assignment_unique, lemma_assigns_roster, lemma_drawn_together, lemma_filter_drops_one,
    lemma_filter_keeps_all,
    lemma_filter_len_remove, lemma_pair_is_unique, lemma_roster, lemma_row_is_unique,
    lemma_rows_push, lemma_rows_remove, lemma_same_roster, lemma_with_giftees,
};
use crate::model::{
    has_pair, in_event, is_row_of, not_row_of, rows_reference_events, takes_part, users_unique,
    Participation, StoreState,
};
use vstd::prelude::*;

verus! {

impl StoreState {
    /// Leaving an event deletes the one row that the user has in it, and
    /// changes nothing where they have none.
    pub proof fn lemma_left_rows(self, year: i32, user: u64)
        requires
            self.wf(),
        ensures
            !self.participates(year, user) ==> self.left(year, user) == self,
            forall|idx: int|
                0 <= idx < self.rows.len() && is_row_of(#[trigger] self.rows[idx], year, user)
                    ==> self.left(year, user).rows == self.rows.remove(idx),
    {
        let keep = not_row_of(year, user);
        if self.participates(year, user) {
            assert forall|idx: int|
                0 <= idx < self.rows.len() && is_row_of(
                    #[trigger] self.rows[idx],
                    year,
                    user,
                ) implies self.left(year, user).rows == self.rows.remove(idx) by {
                assert forall|i: int| 0 <= i < self.rows.len() && i != idx implies keep(
                    #[trigger] self.rows[i],
                ) by {
                    if is_row_of(self.rows[i], year, user) {
                        lemma_row_is_unique(self.rows, i, idx);
                    }
                }
                lemma_filter_drops_one(self.rows, idx, keep);
            }
        } else {
            assert forall|i: int| 0 <= i < self.rows.len() implies keep(#[trigger] self.rows[i]) by {
                if is_row_of(self.rows[i], year, user) {
                    assert(self.participates(year, user));
                }
            }
            lemma_filter_keeps_all(self.rows, keep);
        }
    }

    /// In an open event nobody has a giftee yet.
    pub proof fn lemma_open_event_has_no_giftee(self, year: i32)
        requires
            self.wf(),
            self.is_open(year),
        ensures
            forall|i: int|
                0 <= i < self.rows.len() && (#[trigger] self.rows[i]).event == year
                    ==> self.rows[i].giftee is None,
    {
        assert forall|i: int|
            0 <= i < self.rows.len() && (#[trigger] self.rows[i]).event
                == year implies self.rows[i].giftee is None by {
            assert(!self.is_empty_event(year));
            let j = choose|j: int|
                0 <= j < self.rows.len() && (#[trigger] self.rows[j]).event == year
                    && self.rows[j].giftee is None;
            lemma_drawn_together(self.rows, j, i);
        }
    }

    /// Joining an open event keeps the store consistent and the event open,
    /// and adds one to its participants.
    pub proof fn lemma_joined(self, year: i32, user: u64)
        requires
            self.wf(),
            self.is_open(year),
            !self.participates(year, user),
        ensures
            self.joined(year, user).wf(),
            self.joined(year, user).is_open(year),
            self.joined(year, user).participates(year, user),
            self.joined(year, user).participant_count(year) == self.participant_count(year) + 1,
    {
        let after = self.joined(year, user);
        let row = Participation { event: year, user, giftee: None };
        let n = self.rows.len() as int;
        self.lemma_open_event_has_no_giftee(year);
        lemma_rows_push(self.rows, self.events, row);
        assert(after.rows[n] == row);
        assert(after.rows[n].event == year && after.rows[n].giftee is None);
        assert(is_row_of(after.rows[n], year, user));
        self.rows.lemma_filter_len_push(in_event(year), row);
    }

    /// Leaving an open event keeps the store consistent and the event open,
    /// and takes one from its participants if the user was among them.
    pub proof fn lemma_left(self, year: i32, user: u64)
        requires
            self.wf(),
            self.is_open(year),
        ensures
            self.left(year, user).wf(),
            self.left(year, user).is_open(year),
            !self.left(year, user).participates(year, user),
            self.left(year, user).participant_count(year) + (if self.participates(year, user) {
                1int
            } else {
                0int
            }) == self.participant_count(year),
    {
        let after = self.left(year, user);
        self.lemma_left_rows(year, user);
        self.lemma_open_event_has_no_giftee(year);
        if self.participates(year, user) {
            let idx = choose|idx: int|
                0 <= idx < self.rows.len() && is_row_of(#[trigger] self.rows[idx], year, user);
            assert(after.rows == self.rows.remove(idx));
            lemma_rows_remove(self.rows, self.events, idx);
            assert(after.is_open(year)) by {
                if !after.is_empty_event(year) {
                    let k = choose|k: int|
                        0 <= k < after.rows.len() && (#[trigger] after.rows[k]).event == year;
                    let src = if k < idx {
                        k
                    } else {
                        k + 1
                    };
                    assert(after.rows[k] == self.rows[src]);
                    assert(after.rows[k].giftee is None);
                }
            }
            lemma_filter_len_remove(self.rows, idx, in_event(year));
        }
    }

    /// Creating an event that did not exist keeps the store consistent and
    /// leaves the new event open, with the administrator as its one
    /// participant.
    pub proof fn lemma_opened(self, year: i32, admin: u64)
        requires
            self.wf(),
            !self.has_event(year),
        ensures
            self.opened(year, admin).wf(),
            self.opened(year, admin).is_open(year),
            self.opened(year, admin).participant_count(year) == 1,
            self.opened(year, admin).participates(year, admin),
    {
        let after = self.opened(year, admin);
        let row = Participation { event: year, user: admin, giftee: None };
        let n = self.rows.len() as int;
        assert(after.events[self.events.len() as int] == year);
        assert forall|i: int| 0 <= i < n implies (#[trigger] self.rows[i]).event != year by {
            reveal(rows_reference_events);
            assert(self.events.contains(self.rows[i].event));
        }
        assert(rows_reference_events(self.rows, after.events)) by {
            reveal(rows_reference_events);
            assert forall|i: int| 0 <= i < n implies after.events.contains(
                (#[trigger] self.rows[i]).event,
            ) by {
                let e = self.rows[i].event;
                assert(self.events.contains(e));
                let k = choose|k: int| 0 <= k < self.events.len() && self.events[k] == e;
                assert(after.events[k] == e);
            }
        }
        assert(!takes_part(self.rows, year, admin)) by {
            if takes_part(self.rows, year, admin) {
                let k = choose|k: int|
                    0 <= k < self.rows.len() && is_row_of(#[trigger] self.rows[k], year, admin);
                assert(self.rows[k].event != year);
            }
        }
        lemma_rows_push(self.rows, after.events, row);
        assert(after.rows[n] == row);
        assert(after.rows[n].event == year && after.rows[n].giftee is None);
        assert(is_row_of(after.rows[n], year, admin));
        assert(self.rows.all(|r: Participation| !in_event(year)(r)));
        self.rows.lemma_all_neg_filter_empty(in_event(year));
        self.rows.lemma_filter_len_push(in_event(year), row);
        assert(after.events.no_duplicates()) by {
            assert forall|i: int, j: int|
                0 <= i < after.events.len() && 0 <= j < after.events.len() && i
                    != j implies after.events[i] != after.events[j] by {
                if i < self.events.len() && j == self.events.len() {
                    assert(self.events.contains(self.events[i]));
                }
                if j < self.events.len() && i == self.events.len() {
                    assert(self.events.contains(self.events[j]));
                }
            }
        }
    }

    /// Recording a user keeps the store consistent.
    pub proof fn lemma_with_user(self, id: u64, display_name: String)
        requires
            self.wf(),
        ensures
            self.with_user(id, display_name).wf(),
            self.with_user(id, display_name).has_user(id),
    {
        let after = self.with_user(id, display_name);
        if !self.has_user(id) {
            let n = self.users.len() as int;
            assert(after.users[n].id == id);
            assert(users_unique(after.users)) by {
                reveal(users_unique);
                assert forall|i: int, j: int| 0 <= i < j < after.users.len() implies (
                #[trigger] after.users[i]).id != (#[trigger] after.users[j]).id by {
                    assert(after.users[i] == self.users[i]);
                    if j < n {
                        assert(after.users[j] == self.users[j]);
                    }
                }
            }
        }
    }

    /// A toggle on an open event keeps the store consistent and the event
    /// open, and changes the number of its participants by one.
    pub proof fn lemma_toggled(self, year: i32, user: u64, display_name: String)
        requires
            self.wf(),
            self.is_open(year),
        ensures
            self.toggled(year, user, display_name).wf(),
            self.toggled(year, user, display_name).is_open(year),
            self.toggled(year, user, display_name).has_user(user),
            self.toggled(year, user, display_name).participates(year, user) != self.participates(
                year,
                user,
            ),
            self.toggled(year, user, display_name).participant_count(year) == if self.participates(
                year,
                user,
            ) {
                self.participant_count(year) - 1
            } else {
                self.participant_count(year) as int + 1
            },
    {
        let known = self.with_user(user, display_name);
        self.lemma_with_user(user, display_name);
        if known.participates(year, user) {
            known.lemma_left(year, user);
        } else {
            known.lemma_joined(year, user);
        }
    }

    /// A user who toggles their membership of an open event twice leaves the
    /// number of its participants as it was: the event is still open for the
    /// second toggle, which undoes what the first did to the count.
    pub proof fn lemma_toggle_twice_restores_count(
        self,
        year: i32,
        user: u64,
        first_name: String,
        second_name: String,
    )
        requires
            self.wf(),
            self.is_open(year),
        ensures
            self.toggled(year, user, first_name).is_open(year),
            self.toggled(year, user, first_name).toggled(
                year,
                user,
                second_name,
            ).participant_count(year) == self.participant_count(year),
            self.toggled(year, user, first_name).toggled(year, user, second_name).participates(
                year,
                user,
            ) == self.participates(year, user),
    {
        let once = self.toggled(year, user, first_name);
        self.lemma_toggled(year, user, first_name);
        once.lemma_toggled(year, user, second_name);
    }

    /// Recording an accepted assignment keeps the store consistent, gives
    /// every participant of the event the giftee that their pair names, and
    /// closes the event unless it has no participant.
    pub proof fn lemma_assigned(self, year: i32, pairs: Seq<(u64, u64)>)
        requires
            self.wf(),
            self.accepts_assignments(year, pairs),
        ensures
            self.assigned(year, pairs).wf(),
            self.assigned(year, pairs).roster(year) == self.roster(year),
            forall|i: int, j: int|
                0 <= i < self.rows.len() && 0 <= j < pairs.len() && (#[trigger] self.rows[i]).event
                    == year && self.rows[i].user == (#[trigger] pairs[j]).0 ==> self.assigned(
                    year,
                    pairs,
                ).rows[i].giftee == Some(pairs[j].1),
            pairs.len() > 0 ==> !self.assigned(year, pairs).is_open(year),
    {
        let rows = self.rows;
        let closed = self.assigned(year, pairs);
        let roster = self.roster(year);
        lemma_roster(rows, year);
        lemma_assigns_roster(roster, pairs);
        lemma_with_giftees(rows, year, pairs);
        lemma_assignment_references_events(closed.rows, rows, self.events, year, pairs);
        lemma_assignment_unique(closed.rows, rows, year, pairs);
        lemma_assignment_drawn_together(closed.rows, rows, year, pairs);
        lemma_assignment_giftees_take_part(closed.rows, rows, year, pairs);
        lemma_assignment_giftees_distinct(closed.rows, rows, year, pairs);
        lemma_same_roster(rows, closed.rows, year);
        assert forall|i: int, j: int|
            0 <= i < rows.len() && 0 <= j < pairs.len() && (#[trigger] rows[i]).event == year
                && rows[i].user == (#[trigger] pairs[j]).0 implies closed.rows[i].giftee == Some(
            pairs[j].1,
        ) by {
            let k = choose|k: int|
                0 <= k < pairs.len() && (#[trigger] pairs[k]).0 == rows[i].user
                    && closed.rows[i].giftee == Some(pairs[k].1);
            lemma_pair_is_unique(pairs, j, k);
        }
        if pairs.len() > 0 {
            assert(roster.contains(roster[0]));
            assert(takes_part(rows, year, roster[0]));
            let k = choose|k: int| 0 <= k < rows.len() && is_row_of(#[trigger] rows[k], year, roster[0]);
            assert(closed.rows[k].event == year);
            assert(!closed.is_empty_event(year));
            if closed.awaits_draw(year) {
                let i = choose|i: int|
                    0 <= i < closed.rows.len() && (#[trigger] closed.rows[i]).event == year
                        && closed.rows[i].giftee is None;
                assert(rows[i].event == year);
            }
        }
    }
}

} // verus!
