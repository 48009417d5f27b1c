//! The event store: users, events and participation rows held in memory,
//! with the operations that keep them consistent.

use crate::consistency::{
    is_assignment_of, lemma_assignment_is_with_giftees, lemma_fitting_pairs_assign,
    lemma_participant_has_pair, lemma_roster,
    lemma_roster_push, lemma_row_is_unique, names_giftee,
};
use crate::draw::{
    draw_exists, is_valid_draw, lemma_draw_is_solution, lemma_recent_window_is_unique,
    lemma_solution_is_draw, pairs_of, solution_of,
};
use crate::history::{
    check_pairs, find_pair, is_latest_before, is_latest_event, is_recent_window,
    is_restriction_entry, is_restriction_table, none_before, position_of, window_bound,
};
use crate::model::{
    in_event, is_row_of, roster_of, ParticipantUpdate, Participation, StoreState,
    ToggledParticipation, User,
};
use crate::solver::{solve_assignments, valid_assignment, SolverConfig, PREV_RELEVANT_EVENTS};
use crate::validation::{
    check_drawn_together, check_events_unique, check_giftees_distinct, check_giftees_take_part,
    check_rows_reference_events, check_rows_unique, check_users_unique,
};
use vstd::prelude::*;

verus! {

/// What can go wrong in the store and in the operations built on it.
#[derive(Debug, PartialEq)]
pub enum DatabaseError {
    /// No connection to the storage could be had.
    PoolError(String),
    /// A statement was refused, for instance because a key exists already.
    QueryError(String),
    /// The task that ran the operation did not complete.
    TaskError(String),
    /// The event is closed: its names have been drawn, or it does not exist.
    JoinEventError(),
    /// The roster is too small, or its restrictions leave no assignment.
    NoValidAssignment,
}

/// What an operation of the store returns.
pub type DatabaseResult<T> = Result<T, DatabaseError>;

/// The store of the gift exchange.
#[derive(Clone, Debug)]
pub struct BotDatabase {
    users: Vec<User>,
    events: Vec<i32>,
    participation: Vec<Participation>,
}

impl View for BotDatabase {
    type V = StoreState;

    closed spec fn view(&self) -> StoreState {
        StoreState { users: self.users@, events: self.events@, rows: self.participation@ }
    }
}

impl BotDatabase {
    /// The store's tables are consistent; every operation keeps them so.
    pub open spec fn wf(&self) -> bool {
        self@.wf()
    }

    /// An empty store.
    pub fn new() -> (db: Self)
        ensures
            db.wf(),
            db@.users.len() == 0,
            db@.events.len() == 0,
            db@.rows.len() == 0,
    {
        proof {
            reveal(crate::model::users_unique);
            reveal(crate::model::rows_reference_events);
            reveal(crate::model::rows_unique);
            reveal(crate::model::drawn_together);
            reveal(crate::model::giftees_take_part);
            reveal(crate::model::giftees_distinct);
        }
        BotDatabase { users: Vec::new(), events: Vec::new(), participation: Vec::new() }
    }

    /// A store over tables that were kept elsewhere, if they are consistent.
    pub fn from_tables(users: Vec<User>, events: Vec<i32>, participation: Vec<Participation>) -> (db:
        Option<Self>)
        ensures
            db is Some <==> (StoreState { users: users@, events: events@, rows: participation@ }).wf(),
            db is Some ==> db->0.wf() && db->0@ == (StoreState {
                users: users@,
                events: events@,
                rows: participation@,
            }),
    {
        let consistent = check_users_unique(&users) && check_events_unique(&events)
            && check_rows_reference_events(&participation, &events) && check_rows_unique(
            &participation,
        ) && check_drawn_together(&participation) && check_giftees_take_part(&participation)
            && check_giftees_distinct(&participation);
        if consistent {
            Some(BotDatabase { users, events, participation })
        } else {
            None
        }
    }

    /// The users, in the order in which they were recorded.
    pub fn users(&self) -> (users: &Vec<User>)
        ensures
            users@ == self@.users,
    {
        &self.users
    }

    /// The events, in the order in which they were created.
    pub fn events(&self) -> (events: &Vec<i32>)
        ensures
            events@ == self@.events,
    {
        &self.events
    }

    /// The participation rows, in the order in which they were added.
    pub fn participation(&self) -> (rows: &Vec<Participation>)
        ensures
            rows@ == self@.rows,
    {
        &self.participation
    }

    /// Whether a user with this id is known.
    pub fn has_user(&self, user_id: u64) -> (known: bool)
        ensures
            known == self@.has_user(user_id),
    {
        let mut i: usize = 0;
        while i < self.users.len()
            invariant
                i <= self.users.len(),
                forall|j: int| 0 <= j < i ==> self.users@[j].id != user_id,
            decreases self.users.len() - i,
        {
            if self.users[i].id == user_id {
                assert(self@.users[i as int].id == user_id);
                return true;
            }
            i += 1;
        }
        false
    }

    /// Records the user if they are not known yet; the name of a known user
    /// is never overwritten.
    pub fn insert_user(&mut self, user_id: u64, username: String)
        requires
            old(self).wf(),
        ensures
            final(self).wf(),
            final(self)@ == old(self)@.with_user(user_id, username),
    {
        proof {
            self@.lemma_with_user(user_id, username);
        }
        if !self.has_user(user_id) {
            self.users.push(User { id: user_id, display_name: username });
        }
    }

    /// Whether an event was created for this year.
    pub fn has_event(&self, event_id: i32) -> (known: bool)
        ensures
            known == self@.has_event(event_id),
    {
        let mut i: usize = 0;
        while i < self.events.len()
            invariant
                i <= self.events.len(),
                forall|j: int| 0 <= j < i ==> self.events@[j] != event_id,
            decreases self.events.len() - i,
        {
            if self.events[i] == event_id {
                return true;
            }
            i += 1;
        }
        false
    }

    /// The position of the user's row in the event, if they take part.
    fn find_participation(&self, user_id: u64, event_id: i32) -> (found: Option<usize>)
        ensures
            found is Some <==> self@.participates(event_id, user_id),
            found is Some ==> found->0 < self@.rows.len() && is_row_of(
                self@.rows[found->0 as int],
                event_id,
                user_id,
            ),
    {
        let mut i: usize = 0;
        while i < self.participation.len()
            invariant
                i <= self.participation.len(),
                forall|j: int| 0 <= j < i ==> !is_row_of(self.participation@[j], event_id, user_id),
            decreases self.participation.len() - i,
        {
            if self.participation[i].event == event_id && self.participation[i].user == user_id {
                assert(is_row_of(self@.rows[i as int], event_id, user_id));
                return Some(i);
            }
            i += 1;
        }
        None
    }

    /// Whether the user is a participant of the event.
    pub fn is_user_participating(&self, user_id: u64, event_id: i32) -> (participating: bool)
        ensures
            participating == self@.participates(event_id, user_id),
    {
        self.find_participation(user_id, event_id).is_some()
    }

    /// The number of participants of the event.
    pub fn get_participant_count(&self, event_id: i32) -> (count: u64)
        ensures
            count == self@.participant_count(event_id),
    {
        let ghost in_event = in_event(event_id);
        let mut count: u64 = 0;
        let mut i: usize = 0;
        assert(self.participation@.take(0).filter(in_event).len() == 0) by {
            self.participation@.take(0).lemma_filter_len(in_event);
        }
        while i < self.participation.len()
            invariant
                i <= self.participation.len(),
                in_event == crate::model::in_event(event_id),
                count == self.participation@.take(i as int).filter(in_event).len(),
                count <= i,
            decreases self.participation.len() - i,
        {
            proof {
                let rows = self.participation@;
                assert(rows.take(i as int + 1) =~= rows.take(i as int).push(rows[i as int]));
                rows.take(i as int).lemma_filter_len_push(in_event, rows[i as int]);
            }
            if self.participation[i].event == event_id {
                count += 1;
            }
            i += 1;
        }
        assert(self.participation@.take(i as int) =~= self.participation@);
        count
    }

    /// Whether the event exists and its names have not been drawn yet.
    pub fn is_event_open(&self, event_id: i32) -> (open: bool)
        ensures
            open == self@.is_open(event_id),
    {
        if !self.has_event(event_id) {
            return false;
        }
        let mut empty: bool = true;
        let mut i: usize = 0;
        while i < self.participation.len()
            invariant
                i <= self.participation.len(),
                self@.has_event(event_id),
                empty <==> forall|j: int| 0 <= j < i ==> self@.rows[j].event != event_id,
                forall|j: int|
                    0 <= j < i ==> !(self@.rows[j].event == event_id && self@.rows[j].giftee is None),
            decreases self.participation.len() - i,
        {
            if self.participation[i].event == event_id {
                if self.participation[i].giftee.is_none() {
                    assert(self@.rows[i as int].event == event_id);
                    return true;
                }
                empty = false;
            }
            i += 1;
        }
        empty
    }

    /// Creates the event of `year` with `admin_id` as its first participant.
    /// Fails, changing nothing, if the event exists already.
    pub fn start_new_event(&mut self, year: i32, admin_id: u64) -> (result: DatabaseResult<()>)
        requires
            old(self).wf(),
        ensures
            final(self).wf(),
            old(self)@.has_event(year) ==> (result matches Err(DatabaseError::QueryError(_))) && final(self)@ == old(self)@,
            !old(self)@.has_event(year) ==> result is Ok && final(self)@ == old(self)@.opened(
                year,
                admin_id,
            ),
    {
        if self.has_event(year) {
            return Err(DatabaseError::QueryError("UNIQUE constraint failed: events.event_id".to_owned()));
        }
        proof {
            self@.lemma_opened(year, admin_id);
        }
        self.events.push(year);
        self.participation.push(Participation { event: year, user: admin_id, giftee: None });
        Ok(())
    }

    /// Adds the user to the event as its last participant. Fails, changing
    /// nothing, if the event is closed or the user takes part already.
    pub fn add_participant(&mut self, user_id: u64, event_id: i32) -> (result: DatabaseResult<()>)
        requires
            old(self).wf(),
        ensures
            final(self).wf(),
            !old(self)@.is_open(event_id) ==> (result matches Err(DatabaseError::JoinEventError())) && final(self)@ == old(self)@,
            old(self)@.is_open(event_id) && old(self)@.participates(event_id, user_id) ==> {
                &&& final(self)@ == old(self)@
                &&& result matches Err(DatabaseError::QueryError(detail))
                &&& detail@ == "UNIQUE constraint failed: participation.event, participation.user"@
            },
            old(self)@.is_open(event_id) && !old(self)@.participates(event_id, user_id)
                ==> result is Ok && final(self)@ == old(self)@.joined(event_id, user_id),
    {
        if !self.is_event_open(event_id) {
            return Err(DatabaseError::JoinEventError());
        }
        if self.is_user_participating(user_id, event_id) {
            return Err(
                DatabaseError::QueryError(
                    "UNIQUE constraint failed: participation.event, participation.user".to_owned(),
                ),
            );
        }
        proof {
            self@.lemma_joined(event_id, user_id);
        }
        self.participation.push(Participation { event: event_id, user: user_id, giftee: None });
        Ok(())
    }

    /// Deletes the user's row in the event, if there is one. Fails, changing
    /// nothing, if the event is closed.
    pub fn remove_participant(&mut self, user_id: u64, event_id: i32) -> (result: DatabaseResult<()>)
        requires
            old(self).wf(),
        ensures
            final(self).wf(),
            !old(self)@.is_open(event_id) ==> (result matches Err(DatabaseError::JoinEventError())) && final(self)@ == old(self)@,
            old(self)@.is_open(event_id) ==> result is Ok && final(self)@ == old(self)@.left(
                event_id,
                user_id,
            ),
    {
        if !self.is_event_open(event_id) {
            return Err(DatabaseError::JoinEventError());
        }
        proof {
            self@.lemma_left(event_id, user_id);
            self@.lemma_left_rows(event_id, user_id);
        }
        match self.find_participation(user_id, event_id) {
            Some(idx) => {
                self.participation.remove(idx);
            },
            None => {},
        }
        Ok(())
    }

    /// Toggles the user's membership of the event of `year`.
    ///
    /// Fails, changing nothing, if the event is closed. Otherwise the user is
    /// recorded if they were unknown; then they leave the event if they were
    /// in it and join it if they were not. The result names the change and
    /// the number of participants that the event has after it.
    pub fn toggle_event_participation(&mut self, year: i32, user_id: u64, username: String) -> (result:
        DatabaseResult<ParticipantUpdate>)
        requires
            old(self).wf(),
        ensures
            final(self).wf(),
            !old(self)@.is_open(year) ==> (result matches Err(DatabaseError::JoinEventError())) && final(self)@ == old(self)@,
            old(self)@.is_open(year) ==> {
                &&& final(self)@ == old(self)@.toggled(year, user_id, username)
                &&& final(self)@.is_open(year)
                &&& final(self)@.participant_count(year) <= u64::MAX
                &&& result == Ok::<ParticipantUpdate, DatabaseError>(
                    ParticipantUpdate {
                        total_participants: final(self)@.participant_count(year) as u64,
                        latest_change: if old(self)@.participates(year, user_id) {
                            ToggledParticipation::UserLeft(user_id)
                        } else {
                            ToggledParticipation::UserJoined(user_id)
                        },
                    },
                )
            },
    {
        if !self.is_event_open(year) {
            return Err(DatabaseError::JoinEventError());
        }
        self.insert_user(user_id, username);
        let change = if self.is_user_participating(user_id, year) {
            proof {
                self@.lemma_left(year, user_id);
            }
            match self.remove_participant(user_id, year) {
                Ok(()) => ToggledParticipation::UserLeft(user_id),
                Err(why) => {
                    return Err(why);
                },
            }
        } else {
            proof {
                self@.lemma_joined(year, user_id);
            }
            match self.add_participant(user_id, year) {
                Ok(()) => ToggledParticipation::UserJoined(user_id),
                Err(why) => {
                    return Err(why);
                },
            }
        };
        Ok(ParticipantUpdate::new(self.get_participant_count(year), change))
    }

    /// The participants of the event, in the order in which they joined.
    pub fn get_current_event_participants(&self, year: i32) -> (roster: Vec<u64>)
        ensures
            roster@ == self@.roster(year),
    {
        let mut roster: Vec<u64> = Vec::new();
        let mut i: usize = 0;
        proof {
            self.participation@.take(0).lemma_filter_len(in_event(year));
            assert(roster@ =~= roster_of(self.participation@.take(0), year));
        }
        while i < self.participation.len()
            invariant
                i <= self.participation.len(),
                roster@ == roster_of(self.participation@.take(i as int), year),
            decreases self.participation.len() - i,
        {
            proof {
                let rows = self.participation@;
                assert(rows.take(i as int + 1) =~= rows.take(i as int).push(rows[i as int]));
                lemma_roster_push(rows.take(i as int), rows[i as int], year);
            }
            if self.participation[i].event == year {
                roster.push(self.participation[i].user);
            }
            i += 1;
        }
        assert(self.participation@.take(i as int) =~= self.participation@);
        roster
    }

    /// The latest event before `bound`, if there is one.
    fn latest_event_before(&self, bound: i64) -> (latest: Option<i32>)
        ensures
            latest is Some ==> is_latest_before(self@.events, bound as int, latest->0),
            latest is None ==> none_before(self@.events, bound as int),
    {
        let mut best: Option<i32> = None;
        let mut i: usize = 0;
        while i < self.events.len()
            invariant
                i <= self.events.len(),
                best is Some ==> self@.events.contains(best->0) && best->0 < bound,
                best is Some ==> forall|j: int|
                    0 <= j < i && self@.events[j] < bound ==> self@.events[j] <= best->0,
                best is None ==> forall|j: int| 0 <= j < i ==> self@.events[j] >= bound,
            decreases self.events.len() - i,
        {
            let e: i32 = self.events[i];
            if (e as i64) < bound {
                let better = match best {
                    Some(b) => e > b,
                    None => true,
                };
                if better {
                    assert(self@.events[i as int] == e);
                    best = Some(e);
                }
            }
            i += 1;
        }
        best
    }

    /// The most recent events before `year`, latest first: as many as the
    /// solver looks back on, or all of them if there are fewer.
    pub fn get_previous_event_ids(&self, year: i32) -> (window: Vec<i32>)
        ensures
            is_recent_window(self@.events, year, window@),
    {
        let mut window: Vec<i32> = Vec::new();
        let mut bound: i32 = year;
        while window.len() < PREV_RELEVANT_EVENTS
            invariant_except_break
                bound as int == window_bound(year, window@, window@.len() as int),
            invariant
                window.len() <= PREV_RELEVANT_EVENTS,
                forall|k: int|
                    0 <= k < window@.len() ==> is_latest_before(
                        self@.events,
                        window_bound(year, window@, k),
                        #[trigger] window@[k],
                    ),
            ensures
                is_recent_window(self@.events, year, window@),
            decreases PREV_RELEVANT_EVENTS - window.len(),
        {
            match self.latest_event_before(bound as i64) {
                Some(e) => {
                    let ghost before = window@;
                    window.push(e);
                    bound = e;
                    proof {
                        assert forall|k: int| 0 <= k < window@.len() implies is_latest_before(
                            self@.events,
                            window_bound(year, window@, k),
                            #[trigger] window@[k],
                        ) by {
                            if k < before.len() {
                                assert(window@[k] == before[k]);
                                assert(window_bound(year, window@, k) == window_bound(year, before, k));
                            }
                        }
                    }
                },
                None => {
                    break ;
                },
            }
        }
        window
    }

    /// The giftee that the user has in the event, if they took part in it
    /// and its names were drawn.
    pub fn giftee_in_event(&self, user_id: u64, event_id: i32) -> (giftee: Option<u64>)
        requires
            self.wf(),
        ensures
            giftee == self@.giftee_of(event_id, user_id),
    {
        match self.find_participation(user_id, event_id) {
            Some(idx) => {
                proof {
                    let rows = self@.rows;
                    let other = choose|i: int|
                        0 <= i < rows.len() && is_row_of(#[trigger] rows[i], event_id, user_id);
                    lemma_row_is_unique(rows, other, idx as int);
                }
                self.participation[idx].giftee
            },
            None => None,
        }
    }

    /// The giftee that the user has in the latest event of the store.
    pub fn get_latest_giftee(&self, user_id: u64) -> (giftee: Option<u64>)
        requires
            self.wf(),
        ensures
            self@.events.len() == 0 ==> giftee is None,
            forall|latest: i32| #[trigger]
                is_latest_event(self@.events, latest) ==> giftee == self@.giftee_of(latest, user_id),
    {
        match self.latest_event_before(0x8000_0000i64) {
            Some(latest) => {
                assert forall|other: i32| #[trigger]
                    is_latest_event(self@.events, other) implies other == latest by {
                    let a = choose|a: int| 0 <= a < self@.events.len() && self@.events[a] == other;
                    let b = choose|b: int| 0 <= b < self@.events.len() && self@.events[b] == latest;
                    assert(self@.events[a] <= latest);
                    assert(self@.events[b] <= other);
                }
                self.giftee_in_event(user_id, latest)
            },
            None => {
                assert forall|other: i32| #[trigger]
                    is_latest_event(self@.events, other) implies false by {
                    let a = choose|a: int| 0 <= a < self@.events.len() && self@.events[a] == other;
                    assert(self@.events[a] >= i32::MAX + 1);
                }
                None
            },
        }
    }

    /// The restriction table of a draw: for each participant of the roster
    /// and each event of the window, the position in the roster of the giftee
    /// that the participant had in that event, or the length of the roster
    /// where there is none.
    pub fn get_giftee_history(&self, current_participants: &Vec<u64>, prev_years: &Vec<i32>) -> (table:
        Vec<[usize; 3]>)
        requires
            self.wf(),
        ensures
            is_restriction_table(table@, self@, current_participants@, prev_years@),
    {
        let num_participants: usize = current_participants.len();
        let mut table: Vec<[usize; 3]> = Vec::new();
        let mut i: usize = 0;
        while i < num_participants
            invariant
                i <= num_participants,
                num_participants == current_participants.len(),
                self.wf(),
                table.len() == i,
                forall|a: int, k: int|
                    0 <= a < i && 0 <= k < 3 ==> is_restriction_entry(
                        #[trigger] table@[a][k],
                        self@,
                        current_participants@,
                        prev_years@,
                        a,
                        k,
                    ),
            decreases num_participants - i,
        {
            let mut row: [usize; 3] = [num_participants; 3];
            let mut k: usize = 0;
            while k < PREV_RELEVANT_EVENTS
                invariant
                    k <= 3,
                    i < num_participants,
                    num_participants == current_participants.len(),
                    self.wf(),
                    forall|b: int|
                        0 <= b < k ==> is_restriction_entry(
                            #[trigger] row[b],
                            self@,
                            current_participants@,
                            prev_years@,
                            i as int,
                            b,
                        ),
                decreases 3 - k,
            {
                let mut entry: usize = num_participants;
                if k < prev_years.len() {
                    match self.giftee_in_event(current_participants[i], prev_years[k]) {
                        Some(giftee) => {
                            match position_of(current_participants, giftee) {
                                Some(position) => {
                                    entry = position;
                                },
                                None => {},
                            }
                        },
                        None => {},
                    }
                }
                let ghost before = row;
                row[k] = entry;
                proof {
                    assert forall|b: int| 0 <= b < k + 1 implies is_restriction_entry(
                        #[trigger] row[b],
                        self@,
                        current_participants@,
                        prev_years@,
                        i as int,
                        b,
                    ) by {
                        if b < k {
                            assert(row[b] == before[b]);
                        }
                    }
                }
                k += 1;
            }
            let ghost before = table@;
            table.push(row);
            proof {
                assert forall|a: int, k: int| 0 <= a < i + 1 && 0 <= k < 3 implies is_restriction_entry(
                    #[trigger] table@[a][k],
                    self@,
                    current_participants@,
                    prev_years@,
                    a,
                    k,
                ) by {
                    if a < i {
                        assert(table@[a] == before[a]);
                    }
                }
            }
            i += 1;
        }
        table
    }

    /// Records the giftees of the event of `year`, all of them or none.
    ///
    /// The pairs are accepted if the event is open and they assign its roster
    /// to itself: one pair for each participant, in whatever order, whose
    /// giftee is another participant, with nobody the giftee of two. Then
    /// every row of the event gets the giftee that its pair names. Otherwise
    /// the call fails and no row is changed.
    pub fn save_assignments(&mut self, year: i32, assignments: &Vec<(u64, u64)>) -> (result:
        DatabaseResult<()>)
        requires
            old(self).wf(),
        ensures
            final(self).wf(),
            result is Err ==> final(self)@ == old(self)@,
            !old(self)@.is_open(year) ==> result matches Err(DatabaseError::JoinEventError()),
            old(self)@.is_open(year) && !old(self)@.accepts_assignments(year, assignments@) ==> {
                &&& result matches Err(DatabaseError::QueryError(detail))
                &&& detail@ == "CHECK constraint failed: assignments do not fit the roster"@
            },
            old(self)@.accepts_assignments(year, assignments@) ==> result is Ok && final(self)@
                == old(self)@.assigned(year, assignments@),
    {
        if !self.is_event_open(year) {
            return Err(DatabaseError::JoinEventError());
        }
        let roster = self.get_current_event_participants(year);
        proof {
            lemma_roster(self@.rows, year);
        }
        if !check_pairs(&roster, assignments) {
            return Err(
                DatabaseError::QueryError(
                    "CHECK constraint failed: assignments do not fit the roster".to_owned(),
                ),
            );
        }
        let mut updated: Vec<Participation> = Vec::new();
        let mut i: usize = 0;
        while i < self.participation.len()
            invariant
                i <= self.participation.len(),
                self.wf(),
                self@.accepts_assignments(year, assignments@),
                updated.len() == i,
                forall|a: int|
                    0 <= a < i ==> (#[trigger] updated@[a]).event == self@.rows[a].event
                        && updated@[a].user == self@.rows[a].user,
                forall|a: int|
                    0 <= a < i && self@.rows[a].event != year ==> #[trigger] updated@[a]
                        == self@.rows[a],
                forall|a: int|
                    0 <= a < i && self@.rows[a].event == year ==> names_giftee(
                        assignments@,
                        self@.rows[a].user,
                        (#[trigger] updated@[a]).giftee,
                    ),
            decreases self.participation.len() - i,
        {
            let row: Participation = self.participation[i];
            let mut next: Participation = row;
            if row.event == year {
                proof {
                    lemma_participant_has_pair(self@.rows, year, assignments@, i as int);
                }
                match find_pair(assignments, row.user) {
                    Some(j) => {
                        next = Participation {
                            event: row.event,
                            user: row.user,
                            giftee: Some(assignments[j].1),
                        };
                    },
                    None => {},
                }
            }
            updated.push(next);
            i += 1;
        }
        proof {
            assert(is_assignment_of(updated@, self@.rows, year, assignments@));
            lemma_assignment_is_with_giftees(updated@, self@.rows, year, assignments@);
            self@.lemma_assigned(year, assignments@);
        }
        self.participation = updated;
        Ok(())
    }

    /// Draws the names of the event of `year` and records them.
    ///
    /// Fails, changing nothing, if the event is closed, and with
    /// `NoValidAssignment` if it has fewer than two participants or if every
    /// assignment of its roster would repeat a pairing from a prior event
    /// whose weight is zero. Otherwise it succeeds: the pairs returned give
    /// each participant, in roster order, another participant as giftee,
    /// nobody being the giftee of two; they repeat no forbidden pairing;
    /// they are recorded, and the event is closed.
    pub fn get_drawn_names(&mut self, year: i32, config: &SolverConfig) -> (result: DatabaseResult<
        Vec<(u64, u64)>,
    >)
        requires
            old(self).wf(),
        ensures
            final(self).wf(),
            result is Err ==> final(self)@ == old(self)@,
            !old(self)@.is_open(year) ==> result matches Err(DatabaseError::JoinEventError()),
            old(self)@.is_open(year) && !draw_exists(old(self)@, year, config.weights)
                ==> result matches Err(DatabaseError::NoValidAssignment),
            old(self)@.is_open(year) && draw_exists(old(self)@, year, config.weights)
                ==> result is Ok,
            result is Ok ==> {
                &&& is_valid_draw(old(self)@, year, result->Ok_0@, config.weights)
                &&& final(self)@ == old(self)@.assigned(year, result->Ok_0@)
                &&& !final(self)@.is_open(year)
            },
    {
        if !self.is_event_open(year) {
            return Err(DatabaseError::JoinEventError());
        }
        let current_participants = self.get_current_event_participants(year);
        let num_participants: usize = current_participants.len();
        if num_participants < 2 {
            return Err(DatabaseError::NoValidAssignment);
        }
        let prev_years = self.get_previous_event_ids(year);
        let giftee_history = self.get_giftee_history(&current_participants, &prev_years);
        proof {
            lemma_roster(self@.rows, year);
            lemma_recent_window_is_unique(self@.events, year, prev_years@);
        }
        let solution = match solve_assignments(num_participants, &giftee_history, config) {
            Some(solution) => solution,
            None => {
                proof {
                    if draw_exists(self@, year, config.weights) {
                        let pairs = choose|pairs: Seq<(u64, u64)>|
                            is_valid_draw(self@, year, pairs, config.weights);
                        lemma_draw_is_solution(self@, year, giftee_history@, pairs, config.weights);
                        assert(valid_assignment(
                            solution_of(self@.roster(year), pairs),
                            num_participants as nat,
                            giftee_history@,
                            config.weights,
                        ));
                    }
                }
                return Err(DatabaseError::NoValidAssignment);
            },
        };
        let mut assignments: Vec<(u64, u64)> = Vec::new();
        let mut i: usize = 0;
        while i < num_participants
            invariant
                i <= num_participants,
                num_participants == current_participants.len(),
                solution.len() == num_participants,
                forall|a: int| 0 <= a < num_participants ==> solution@[a] < num_participants,
                assignments.len() == i,
                forall|a: int|
                    0 <= a < i ==> assignments@[a] == (
                        current_participants@[a],
                        current_participants@[solution@[a] as int],
                    ),
            decreases num_participants - i,
        {
            assignments.push((current_participants[i], current_participants[solution[i]]));
            i += 1;
        }
        proof {
            assert(assignments@ =~= pairs_of(self@.roster(year), solution@));
            lemma_solution_is_draw(self@, year, giftee_history@, solution@, config.weights);
            lemma_fitting_pairs_assign(self@.roster(year), assignments@);
            self@.lemma_assigned(year, assignments@);
        }
        match self.save_assignments(year, &assignments) {
            Ok(()) => Ok(assignments),
            Err(why) => Err(why),
        }
    }
}

} // verus!
