//! The persistent state of the gift exchange as plain values, and the
//! mathematical model that the contracts of the store speak of.

use vstd::prelude::*;

verus! {

/// A member of the community.
#[derive(Clone, Debug, PartialEq)]
pub struct User {
    pub id: u64,
    pub display_name: String,
}

/// One participant in one event. `giftee` is `None` until the names of that
/// event have been drawn.
#[derive(Clone, Copy, Debug, PartialEq, Eq, Structural)]
pub struct Participation {
    pub event: i32,
    pub user: u64,
    pub giftee: Option<u64>,
}

/// Which way a membership toggle went, and for whom.
#[derive(Clone, Copy, Debug, PartialEq, Eq, Structural)]
pub enum ToggledParticipation {
    UserJoined(u64),
    UserLeft(u64),
}

/// The outcome of a membership toggle: the number of participants that the
/// event has after it, and the change that led there.
#[derive(Clone, Copy, Debug, PartialEq, Eq, Structural)]
pub struct ParticipantUpdate {
    pub total_participants: u64,
    pub latest_change: ToggledParticipation,
}

impl ParticipantUpdate {
    /// The update with this count and this change.
    pub fn new(total_participants: u64, latest_change: ToggledParticipation) -> (update: Self)
        ensures
            update == (ParticipantUpdate { total_participants, latest_change }),
    {
        Self { total_participants, latest_change }
    }
}

/// The three tables of the store: users, events (each the year it is held
/// in) and participation rows, each in insertion order.
pub struct StoreState {
    pub users: Seq<User>,
    pub events: Seq<i32>,
    pub rows: Seq<Participation>,
}

/// The row is that of `user` in the event of `year`.
pub open spec fn is_row_of(row: Participation, year: i32, user: u64) -> bool {
    row.event == year && row.user == user
}

/// The rows of the event of `year`.
pub open spec fn in_event(year: i32) -> spec_fn(Participation) -> bool {
    |row: Participation| row.event == year
}

/// All rows but that of `user` in the event of `year`.
pub open spec fn not_row_of(year: i32, user: u64) -> spec_fn(Participation) -> bool {
    |row: Participation| !is_row_of(row, year, user)
}

/// The participant that a row stands for.
pub open spec fn row_user() -> spec_fn(Participation) -> u64 {
    |row: Participation| row.user
}

/// No two users share an id.
#[verifier::opaque]
pub open spec fn users_unique(users: Seq<User>) -> bool {
    forall|i: int, j: int|
        0 <= i < j < users.len() ==> (#[trigger] users[i]).id != (#[trigger] users[j]).id
}

/// Every row belongs to an event that exists.
#[verifier::opaque]
pub open spec fn rows_reference_events(rows: Seq<Participation>, events: Seq<i32>) -> bool {
    forall|i: int| 0 <= i < rows.len() ==> events.contains((#[trigger] rows[i]).event)
}

/// A user is in an event at most once.
#[verifier::opaque]
pub open spec fn rows_unique(rows: Seq<Participation>) -> bool {
    forall|i: int, j: int|
        0 <= i < j < rows.len() ==> !is_row_of(
            #[trigger] rows[i],
            (#[trigger] rows[j]).event,
            rows[j].user,
        )
}

/// Within an event either every row has a giftee or none has.
#[verifier::opaque]
pub open spec fn drawn_together(rows: Seq<Participation>) -> bool {
    forall|i: int, j: int|
        0 <= i < rows.len() && 0 <= j < rows.len() && (#[trigger] rows[i]).event == (
        #[trigger] rows[j]).event && rows[i].giftee is None ==> rows[j].giftee is None
}

/// Some row is that of `user` in the event of `year`.
pub open spec fn takes_part(rows: Seq<Participation>, year: i32, user: u64) -> bool {
    exists|i: int| 0 <= i < rows.len() && is_row_of(#[trigger] rows[i], year, user)
}

/// A giftee is another participant of the same event.
#[verifier::opaque]
pub open spec fn giftees_take_part(rows: Seq<Participation>) -> bool {
    forall|i: int|
        0 <= i < rows.len() && (#[trigger] rows[i]).giftee is Some ==> {
            &&& rows[i].giftee->0 != rows[i].user
            &&& takes_part(rows, rows[i].event, rows[i].giftee->0)
        }
}

/// Within an event nobody is the giftee of two participants.
#[verifier::opaque]
pub open spec fn giftees_distinct(rows: Seq<Participation>) -> bool {
    forall|i: int, j: int|
        0 <= i < j < rows.len() && (#[trigger] rows[i]).event == (#[trigger] rows[j]).event
            && rows[i].giftee is Some ==> rows[i].giftee != rows[j].giftee
}

/// The participants that the pairs are for, in the order of the pairs.
pub open spec fn givers(pairs: Seq<(u64, u64)>) -> Seq<u64> {
    pairs.map_values(|pair: (u64, u64)| pair.0)
}

/// Some pair is for `user`.
pub open spec fn has_pair(pairs: Seq<(u64, u64)>, user: u64) -> bool {
    exists|j: int| 0 <= j < pairs.len() && (#[trigger] pairs[j]).0 == user
}

/// The position of a pair for `user`, where there is one.
pub open spec fn pair_index(pairs: Seq<(u64, u64)>, user: u64) -> int {
    choose|j: int| 0 <= j < pairs.len() && (#[trigger] pairs[j]).0 == user
}

/// The giftee that the pairs name for `user`, if any of them is for that
/// user.
pub open spec fn pair_of(pairs: Seq<(u64, u64)>, user: u64) -> Option<u64> {
    if has_pair(pairs, user) {
        Some(pairs[pair_index(pairs, user)].1)
    } else {
        None
    }
}

/// The pairs assign the roster to itself: there is one pair for each
/// participant, in whatever order; every giftee is a participant other than
/// the giver, and nobody is the giftee of two.
pub open spec fn assigns_roster(roster: Seq<u64>, pairs: Seq<(u64, u64)>) -> bool {
    &&& givers(pairs).to_multiset() == roster.to_multiset()
    &&& forall|j: int|
        0 <= j < pairs.len() ==> (#[trigger] pairs[j]).1 != pairs[j].0 && roster.contains(
            pairs[j].1,
        )
    &&& forall|i: int, j: int|
        0 <= i < j < pairs.len() ==> (#[trigger] pairs[i]).1 != (#[trigger] pairs[j]).1
}

/// The pairs assign the roster to itself and stand in roster order.
pub open spec fn fits_roster(roster: Seq<u64>, pairs: Seq<(u64, u64)>) -> bool {
    &&& givers(pairs) == roster
    &&& forall|j: int|
        0 <= j < pairs.len() ==> (#[trigger] pairs[j]).1 != pairs[j].0 && roster.contains(
            pairs[j].1,
        )
    &&& forall|i: int, j: int|
        0 <= i < j < pairs.len() ==> (#[trigger] pairs[i]).1 != (#[trigger] pairs[j]).1
}

/// The rows with the giftees of the event of `year` set as the pairs say.
pub open spec fn with_giftees(rows: Seq<Participation>, year: i32, pairs: Seq<(u64, u64)>) -> Seq<
    Participation,
> {
    Seq::new(
        rows.len(),
        |i: int|
            if rows[i].event == year {
                Participation {
                    event: rows[i].event,
                    user: rows[i].user,
                    giftee: pair_of(pairs, rows[i].user),
                }
            } else {
                rows[i]
            },
    )
}

/// The users of the rows of one event, in the order of the rows.
pub open spec fn roster_of(rows: Seq<Participation>, year: i32) -> Seq<u64> {
    rows.filter(in_event(year)).map_values(row_user())
}

impl StoreState {
    /// The participation rows of one event, in insertion order.
    pub open spec fn event_rows(self, year: i32) -> Seq<Participation> {
        self.rows.filter(in_event(year))
    }

    /// The participants of one event, in insertion order.
    pub open spec fn roster(self, year: i32) -> Seq<u64> {
        roster_of(self.rows, year)
    }

    /// The number of participants of one event.
    pub open spec fn participant_count(self, year: i32) -> nat {
        self.event_rows(year).len()
    }

    /// The user is a participant of the event.
    pub open spec fn participates(self, year: i32, user: u64) -> bool {
        takes_part(self.rows, year, user)
    }

    /// A user with this id is known.
    pub open spec fn has_user(self, id: u64) -> bool {
        exists|i: int| 0 <= i < self.users.len() && (#[trigger] self.users[i]).id == id
    }

    /// An event was created for this year.
    pub open spec fn has_event(self, year: i32) -> bool {
        self.events.contains(year)
    }

    /// Some participant of the event is still without a giftee.
    pub open spec fn awaits_draw(self, year: i32) -> bool {
        exists|i: int|
            0 <= i < self.rows.len() && (#[trigger] self.rows[i]).event == year
                && self.rows[i].giftee is None
    }

    /// The event has no participant at all.
    pub open spec fn is_empty_event(self, year: i32) -> bool {
        forall|i: int| 0 <= i < self.rows.len() ==> (#[trigger] self.rows[i]).event != year
    }

    /// The event exists and its names have not been drawn: it has no
    /// participant, or one without a giftee.
    pub open spec fn is_open(self, year: i32) -> bool {
        self.has_event(year) && (self.is_empty_event(year) || self.awaits_draw(year))
    }

    /// The giftee that `user` has in the event of `year`, if the user took
    /// part in it and its names were drawn.
    pub open spec fn giftee_of(self, year: i32, user: u64) -> Option<u64> {
        if self.participates(year, user) {
            let i = choose|i: int|
                0 <= i < self.rows.len() && is_row_of(#[trigger] self.rows[i], year, user);
            self.rows[i].giftee
        } else {
            None
        }
    }

    /// What the store guarantees of its tables at all times:
    /// no user and no event occurs twice; every row belongs to an event that
    /// exists; a user is in an event at most once; within an event either
    /// every row has a giftee or none has; a giftee is another participant of
    /// the same event, and nobody is the giftee of two.
    pub open spec fn wf(self) -> bool {
        &&& users_unique(self.users)
        &&& self.events.no_duplicates()
        &&& rows_reference_events(self.rows, self.events)
        &&& rows_unique(self.rows)
        &&& drawn_together(self.rows)
        &&& giftees_take_part(self.rows)
        &&& giftees_distinct(self.rows)
    }

    /// The state with `id` among the users: unchanged where the user is
    /// known, however they are named there.
    pub open spec fn with_user(self, id: u64, display_name: String) -> StoreState {
        if self.has_user(id) {
            self
        } else {
            StoreState { users: self.users.push(User { id, display_name }), ..self }
        }
    }

    /// The state after `user` has been added to the event as its last
    /// participant.
    pub open spec fn joined(self, year: i32, user: u64) -> StoreState {
        StoreState {
            rows: self.rows.push(Participation { event: year, user, giftee: None }),
            ..self
        }
    }

    /// The state after the row of `user` in the event has been deleted.
    pub open spec fn left(self, year: i32, user: u64) -> StoreState {
        StoreState { rows: self.rows.filter(not_row_of(year, user)), ..self }
    }

    /// The state after `user` has toggled their membership of an open event.
    pub open spec fn toggled(self, year: i32, user: u64, display_name: String) -> StoreState {
        let known = self.with_user(user, display_name);
        if known.participates(year, user) {
            known.left(year, user)
        } else {
            known.joined(year, user)
        }
    }

    /// The event is open and the pairs assign its roster to itself, in
    /// whatever order they stand.
    pub open spec fn accepts_assignments(self, year: i32, pairs: Seq<(u64, u64)>) -> bool {
        self.is_open(year) && assigns_roster(self.roster(year), pairs)
    }

    /// The state after the giftees of the event have been recorded.
    pub open spec fn assigned(self, year: i32, pairs: Seq<(u64, u64)>) -> StoreState {
        StoreState { rows: with_giftees(self.rows, year, pairs), ..self }
    }

    /// The state after the event of `year` has been created with `admin` as
    /// its first participant.
    pub open spec fn opened(self, year: i32, admin: u64) -> StoreState {
        StoreState {
            events: self.events.push(year),
            rows: self.rows.push(Participation { event: year, user: admin, giftee: None }),
            ..self
        }
    }
}

} // verus!
