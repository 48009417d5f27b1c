//! The commands of the gift exchange: what they answer with.

use crate::commands::error::CommandError;
use crate::database::DatabaseResult;
use crate::model::{ParticipantUpdate, ToggledParticipation};
use crate::text::{decimal, decimal_digits, same_text, signed_decimal, signed_decimal_digits};
use chrono::Datelike;
use vstd::prelude::*;
use vstd::string::StringExecFns;

verus! {

/// The user who may open events and draw names.
pub const SECRET_ADMIN_ID: u64 = 248966803139723264;

/// What a command of the gift exchange returns.
pub type SecretResult<T> = Result<T, CommandError>;

/// The giftee of a participant, if they have one.
pub type Assignee = Option<u64>;

/// The pairs of a draw: each participant with their giftee.
pub type Assignments = Vec<(u64, u64)>;

/// An answer to a command: a text, and the buttons shown below it.
#[derive(Debug)]
pub struct SecretResponse {
    pub content: String,
    pub buttons: Vec<String>,
}

/// What the store of the gift exchange offers to the commands.
pub trait SecretSantaTrait {
    fn get_latest_giftee(&self, user_id: u64) -> DatabaseResult<Assignee>;

    fn start_new_event(&self) -> DatabaseResult<()>;

    fn is_event_open(&self) -> DatabaseResult<bool>;

    fn toggle_event_participation(&self, user_id: u64, username: String) -> DatabaseResult<
        ParticipantUpdate,
    >;

    fn get_drawn_names(&self) -> DatabaseResult<Assignments>;
}

/// One private message that a draw gives rise to.
#[derive(Debug)]
pub struct Notification {
    pub recipient: u64,
    pub content: String,
}

/// Calls `chrono::Local::now` and `chrono::Datelike::year`. Trusted, and
/// nothing is claimed: the result is the year that the clock and the time
/// zone of the machine give.
#[verifier::external_body]
pub fn current_year() -> i32 {
    chrono::Local::now().year()
}

/// How a user is mentioned in a message.
pub open spec fn mention_text(user_id: u64) -> Seq<char> {
    "<@"@ + decimal_digits(user_id as nat) + ">"@
}

/// Mentions a user.
pub fn mention(user_id: u64) -> (text: String)
    ensures
        text@ == mention_text(user_id),
{
    let mut text = "<@".to_owned();
    let digits = decimal(user_id);
    text.append(digits.as_str());
    text.append(">");
    text
}

/// What is announced after a toggle: who joined or left, and how many
/// participants the event of `year` has now.
pub open spec fn update_text(update: ParticipantUpdate, year: i32) -> Seq<char> {
    let counted = signed_decimal_digits(year as int) + " has "@ + decimal_digits(
        update.total_participants as nat,
    ) + " participants"@;
    match update.latest_change {
        ToggledParticipation::UserJoined(user_id) => mention_text(user_id)
            + " has joined the event! "@ + counted,
        ToggledParticipation::UserLeft(user_id) => mention_text(user_id) + " has left the event. "@
            + counted,
    }
}

impl ParticipantUpdate {
    /// The announcement of the update for the event of `year`.
    pub fn announcement(&self, year: i32) -> (text: String)
        ensures
            text@ == update_text(*self, year),
    {
        let mut text = match self.latest_change {
            ToggledParticipation::UserJoined(user_id) => {
                let mut text = mention(user_id);
                text.append(" has joined the event! ");
                text
            },
            ToggledParticipation::UserLeft(user_id) => {
                let mut text = mention(user_id);
                text.append(" has left the event. ");
                text
            },
        };
        let year_digits = signed_decimal(year);
        let count_digits = decimal(self.total_participants);
        text.append(year_digits.as_str());
        text.append(" has ");
        text.append(count_digits.as_str());
        text.append(" participants");
        assert(text@ =~= update_text(*self, year));
        text
    }

    /// The announcement of the update for the event of the current year.
    pub fn to_string(&self) -> (text: String)
        ensures
            exists|year: i32| text@ == #[trigger] update_text(*self, year),
    {
        let year = current_year();
        let text = self.announcement(year);
        assert(text@ == update_text(*self, year));
        text
    }
}

/// What a button is labelled with.
pub open spec fn button_label(button_id: Seq<char>) -> Seq<char> {
    if button_id == "start_new_event"@ {
        "Create New Secret Santa Event"@
    } else if button_id == "draw_names"@ {
        "Draw Names"@
    } else if button_id == "toggle_event_participation"@ {
        "Join (or Leave) Secret Santa"@
    } else {
        "How did you conjure this??"@
    }
}

/// The label of the button with the given id.
pub fn get_button_label(button_id: &str) -> (label: &'static str)
    ensures
        label@ == button_label(button_id@),
{
    if same_text(button_id, "start_new_event") {
        "Create New Secret Santa Event"
    } else if same_text(button_id, "draw_names") {
        "Draw Names"
    } else if same_text(button_id, "toggle_event_participation") {
        "Join (or Leave) Secret Santa"
    } else {
        "How did you conjure this??"
    }
}

/// `result` is what the administrator is answered: a greeting, with the
/// buttons that open an event and draw its names.
pub open spec fn is_admin_response(result: SecretResult<SecretResponse>) -> bool {
    &&& result is Ok
    &&& result->Ok_0.content@ == "Hello admin!"@
    &&& result->Ok_0.buttons@.len() == 2
    &&& result->Ok_0.buttons@[0]@ == "start_new_event"@
    &&& result->Ok_0.buttons@[1]@ == "draw_names"@
}

/// What the administrator is answered: a greeting, with the buttons that
/// open an event and draw its names.
pub fn admin_response() -> (result: SecretResult<SecretResponse>)
    ensures
        is_admin_response(result),
{
    let mut buttons: Vec<String> = Vec::new();
    buttons.push("start_new_event".to_owned());
    buttons.push("draw_names".to_owned());
    Ok(SecretResponse { content: "Hello admin!".to_owned(), buttons })
}

/// What a participant is told of their giftee.
pub open spec fn giftee_text(giftee: Option<u64>) -> Seq<char> {
    match giftee {
        Some(giftee_id) => "Your giftee is "@ + mention_text(giftee_id),
        None => "No giftee found - are you a participant for this event?"@,
    }
}

/// `result` is the answer to a user who asked for their giftee and whose
/// lookup the store answered with `lookup`: the giftee, or that there is
/// none, without buttons; or the failure of the store.
pub open spec fn is_giftee_response(
    result: SecretResult<SecretResponse>,
    lookup: DatabaseResult<Assignee>,
) -> bool {
    match lookup {
        Ok(giftee) => result is Ok && result->Ok_0.content@ == giftee_text(giftee)
            && result->Ok_0.buttons@.len() == 0,
        Err(why) => result == Err::<SecretResponse, CommandError>(CommandError::Database(why)),
    }
}

/// The answer to a user who asked for their giftee, given what the store
/// said.
pub fn giftee_response(lookup: DatabaseResult<Assignee>) -> (result: SecretResult<SecretResponse>)
    ensures
        is_giftee_response(result, lookup),
{
    match lookup {
        Ok(Some(giftee_id)) => {
            let mut content = "Your giftee is ".to_owned();
            let giftee_mention = mention(giftee_id);
            content.append(giftee_mention.as_str());
            Ok(SecretResponse { content, buttons: Vec::new() })
        },
        Ok(None) => Ok(
            SecretResponse {
                content: "No giftee found - are you a participant for this event?".to_owned(),
                buttons: Vec::new(),
            },
        ),
        Err(why) => Err(CommandError::Database(why)),
    }
}

/// `lookup` is an answer that the store may give when it is asked for the
/// latest giftee of the user.
pub open spec fn may_find_giftee<D: SecretSantaTrait>(
    db: &D,
    user_id: u64,
    lookup: DatabaseResult<Assignee>,
) -> bool {
    call_ensures(D::get_latest_giftee, (db, user_id), lookup)
}

/// `result` answers a user whose giftee the store was asked for.
pub open spec fn answers_user<D: SecretSantaTrait>(
    result: SecretResult<SecretResponse>,
    user_id: u64,
    db: &D,
) -> bool {
    exists|lookup: DatabaseResult<Assignee>| #[trigger]
        may_find_giftee(db, user_id, lookup) && is_giftee_response(result, lookup)
}

/// Answers a user who asked for their giftee: the store is asked once for
/// the latest giftee of that user, and what it says is the answer.
pub fn user_response<D: SecretSantaTrait>(user_id: u64, db: &D) -> (result: SecretResult<
    SecretResponse,
>)
    ensures
        answers_user(result, user_id, db),
        result is Ok ==> result->Ok_0.buttons@.len() == 0,
        result is Err ==> result->Err_0 is Database,
{
    let lookup = db.get_latest_giftee(user_id);
    assert(may_find_giftee(db, user_id, lookup));
    giftee_response(lookup)
}

/// Answers the secret command: the administrator gets the buttons, and the
/// store is not asked; every other user gets their giftee, as the store has
/// it.
pub fn respond<D: SecretSantaTrait>(invoker_id: u64, db: &D) -> (result: SecretResult<
    SecretResponse,
>)
    ensures
        invoker_id == SECRET_ADMIN_ID ==> is_admin_response(result),
        invoker_id != SECRET_ADMIN_ID ==> answers_user(result, invoker_id, db),
{
    if invoker_id == SECRET_ADMIN_ID {
        admin_response()
    } else {
        user_response(invoker_id, db)
    }
}

/// `result` is the answer to the request to open an event that the store
/// answered with `outcome`: the news, with the button to join, or the
/// failure of the store.
pub open spec fn is_new_event_response(
    result: SecretResult<SecretResponse>,
    outcome: DatabaseResult<()>,
) -> bool {
    match outcome {
        Ok(_) => result is Ok && result->Ok_0.content@ == "New event has begun!"@
            && result->Ok_0.buttons@.len() == 1 && result->Ok_0.buttons@[0]@
            == "toggle_event_participation"@,
        Err(why) => result == Err::<SecretResponse, CommandError>(CommandError::Database(why)),
    }
}

/// The answer to the request to open an event, given what the store said.
pub fn new_event_response(outcome: DatabaseResult<()>) -> (result: SecretResult<SecretResponse>)
    ensures
        is_new_event_response(result, outcome),
{
    match outcome {
        Ok(_) => {
            let mut buttons: Vec<String> = Vec::new();
            buttons.push("toggle_event_participation".to_owned());
            Ok(SecretResponse { content: "New event has begun!".to_owned(), buttons })
        },
        Err(why) => Err(CommandError::Database(why)),
    }
}

/// `outcome` is an answer that the store may give when it is asked to open
/// a new event.
pub open spec fn may_open_event<D: SecretSantaTrait>(db: &D, outcome: DatabaseResult<()>) -> bool {
    call_ensures(D::start_new_event, (db,), outcome)
}

/// Opens a new event and answers with the button to join it: the store is
/// asked once to open the event, and its failure is the failure of the
/// command.
pub fn start_new_event_logic<D: SecretSantaTrait>(db: &D) -> (result: SecretResult<SecretResponse>)
    ensures
        exists|outcome: DatabaseResult<()>| #[trigger]
            may_open_event(db, outcome) && is_new_event_response(result, outcome),
        result is Ok ==> result->Ok_0.content@ == "New event has begun!"@
            && result->Ok_0.buttons@.len() == 1,
        result is Err ==> result->Err_0 is Database,
{
    let outcome = db.start_new_event();
    assert(may_open_event(db, outcome));
    new_event_response(outcome)
}

/// `result` is the answer to a toggle of membership in the event of `year`
/// that the store answered with `outcome`: the announcement of the change,
/// without buttons, or the failure of the store.
pub open spec fn is_toggle_response(
    result: SecretResult<SecretResponse>,
    outcome: DatabaseResult<ParticipantUpdate>,
    year: i32,
) -> bool {
    match outcome {
        Ok(update) => result is Ok && result->Ok_0.content@ == update_text(update, year)
            && result->Ok_0.buttons@.len() == 0,
        Err(why) => result == Err::<SecretResponse, CommandError>(CommandError::Database(why)),
    }
}

/// The answer to a toggle of membership in the event of `year`, given what
/// the store said.
pub fn toggle_response(outcome: DatabaseResult<ParticipantUpdate>, year: i32) -> (result:
    SecretResult<SecretResponse>)
    ensures
        is_toggle_response(result, outcome, year),
{
    match outcome {
        Ok(update) => Ok(SecretResponse { content: update.announcement(year), buttons: Vec::new() }),
        Err(why) => Err(CommandError::Database(why)),
    }
}

/// `outcome` is an answer that the store may give when it is asked to toggle
/// the membership of the user with this id and name.
pub open spec fn may_toggle<D: SecretSantaTrait>(
    db: &D,
    user_id: u64,
    username: String,
    outcome: DatabaseResult<ParticipantUpdate>,
) -> bool {
    call_ensures(D::toggle_event_participation, (db, user_id, username), outcome)
}

/// `result` answers the toggle that the store answered with `outcome`, for
/// some year.
pub open spec fn answers_toggle(
    result: SecretResult<SecretResponse>,
    outcome: DatabaseResult<ParticipantUpdate>,
) -> bool {
    exists|year: i32| #[trigger] is_toggle_response(result, outcome, year)
}

/// Toggles the membership of a user in the event of the current year and
/// answers with the announcement of the change.
///
/// The store is asked once, with the id and the name as they were given.
/// Its failure is the failure of the command; where it succeeds, the answer
/// is the announcement of the update that it returned, for the year that
/// the clock gives, without buttons.
pub fn toggle_event_participation_logic<D: SecretSantaTrait>(
    user_id: u64,
    username: String,
    db: &D,
) -> (result: SecretResult<SecretResponse>)
    ensures
        exists|outcome: DatabaseResult<ParticipantUpdate>| #[trigger]
            may_toggle(db, user_id, username, outcome) && answers_toggle(result, outcome),
        result is Ok ==> result->Ok_0.buttons@.len() == 0,
        result is Err ==> result->Err_0 is Database,
{
    let outcome = db.toggle_event_participation(user_id, username);
    assert(may_toggle(db, user_id, username, outcome));
    let year = current_year();
    let result = toggle_response(outcome, year);
    assert(is_toggle_response(result, outcome, year));
    assert(answers_toggle(result, outcome));
    result
}

/// What a participant is told of their assignment in the event of `year`.
pub open spec fn assignment_text(giftee_id: u64, year: i32) -> Seq<char> {
    "\u{1F389} Your Secret Santa assignment for the "@ + signed_decimal_digits(year as int)
        + " event is "@ + mention_text(giftee_id) + "! \u{1F389}"@
}

/// The private message that tells a participant their giftee.
pub fn assignment_message(giftee_id: u64, year: i32) -> (text: String)
    ensures
        text@ == assignment_text(giftee_id, year),
{
    let mut text = "\u{1F389} Your Secret Santa assignment for the ".to_owned();
    let year_digits = signed_decimal(year);
    let giftee_mention = mention(giftee_id);
    text.append(year_digits.as_str());
    text.append(" event is ");
    text.append(giftee_mention.as_str());
    text.append("! \u{1F389}");
    text
}

/// The private messages that a draw gives rise to: one for each pair, to the
/// participant, naming the giftee and the year.
pub fn notifications(assignments: &Vec<(u64, u64)>, year: i32) -> (requests: Vec<Notification>)
    ensures
        requests@.len() == assignments@.len(),
        forall|i: int|
            0 <= i < assignments@.len() ==> (#[trigger] requests@[i]).recipient == assignments@[i].0
                && requests@[i].content@ == assignment_text(assignments@[i].1, year),
{
    let mut requests: Vec<Notification> = Vec::new();
    let mut i: usize = 0;
    while i < assignments.len()
        invariant
            i <= assignments.len(),
            requests@.len() == i,
            forall|j: int|
                0 <= j < i ==> (#[trigger] requests@[j]).recipient == assignments@[j].0
                    && requests@[j].content@ == assignment_text(assignments@[j].1, year),
        decreases assignments.len() - i,
    {
        let pair = assignments[i];
        requests.push(
            Notification { recipient: pair.0, content: assignment_message(pair.1, year) },
        );
        i += 1;
    }
    requests
}

/// The recipients among the first `n` requests whose message did not
/// arrive, in the order of the requests.
pub open spec fn missed_recipients(requests: Seq<Notification>, delivered: Seq<bool>, n: int) -> Seq<
    u64,
>
    decreases n,
{
    if n <= 0 {
        Seq::empty()
    } else if n - 1 < delivered.len() && delivered[n - 1] {
        missed_recipients(requests, delivered, n - 1)
    } else {
        missed_recipients(requests, delivered, n - 1).push(requests[n - 1].recipient)
    }
}

/// What is reported once the messages of a draw were sent: nothing if all
/// of them arrived, else the participants who could not be told. A request
/// of which nothing is known counts as not delivered. Either way the draw
/// stands.
pub fn delivery_report(requests: &Vec<Notification>, delivered: &Vec<bool>) -> (report: Option<
    CommandError,
>)
    ensures
        missed_recipients(requests@, delivered@, requests@.len() as int).len() == 0
            ==> report is None,
        missed_recipients(requests@, delivered@, requests@.len() as int).len() > 0 ==> {
            &&& report matches Some(CommandError::PartialNotificationFailure(missed))
            &&& missed@ == missed_recipients(requests@, delivered@, requests@.len() as int)
        },
{
    let mut missed: Vec<u64> = Vec::new();
    let mut i: usize = 0;
    while i < requests.len()
        invariant
            i <= requests.len(),
            missed@ == missed_recipients(requests@, delivered@, i as int),
        decreases requests.len() - i,
    {
        if !(i < delivered.len() && delivered[i]) {
            missed.push(requests[i].recipient);
        }
        i += 1;
    }
    if missed.len() == 0 {
        None
    } else {
        Some(CommandError::PartialNotificationFailure(missed))
    }
}

} // verus!
