use secret_santa::commands::error::CommandError;
use secret_santa::commands::gotd::{
    insertion_outcome, submit_gif_logic, ContentType, GifValidator, GotdTrait, HeadResponse,
    RealGifValidator, UrlValidationError,
};
use secret_santa::commands::hidden_ability::{
    format_hidden_ability, format_lookup, get_hidden_abilities,
};
use secret_santa::commands::integration_test::verify_output;
use secret_santa::commands::ping;
use secret_santa::commands::poe;
use secret_santa::commands::secret::{
    admin_response, assignment_message, delivery_report, get_button_label, giftee_response, mention,
    current_year, new_event_response, notifications, respond, start_new_event_logic, toggle_event_participation_logic,
    toggle_response, user_response, Assignee, Assignments, SecretSantaTrait, SECRET_ADMIN_ID,
};
use secret_santa::database::{DatabaseError, DatabaseResult};
use secret_santa::model::{ParticipantUpdate, ToggledParticipation};
use secret_santa::services::pokeapi::{
    check_api_name, convert_to_pokeapi_name, Ability, PokeAPIError, PokeAPIResult, PokeAPIService,
    RealPokeAPIService, MAX_CHARS, MIN_CHARS, NO_HIDDEN_ABILITY,
};
use std::cell::RefCell;
use std::collections::HashMap;

#[derive(Clone)]
struct MockSecretDB {
    should_fail: bool,
}

impl SecretSantaTrait for MockSecretDB {
    fn get_latest_giftee(&self, user_id: u64) -> DatabaseResult<Assignee> {
        if self.should_fail {
            Err(DatabaseError::QueryError("Mock DB Error".to_string()))
        } else if user_id == 1 {
            Ok(Some(2))
        } else {
            Ok(None)
        }
    }

    fn start_new_event(&self) -> DatabaseResult<()> {
        if self.should_fail {
            Err(DatabaseError::QueryError("Mock DB Error".to_string()))
        } else {
            Ok(())
        }
    }

    fn is_event_open(&self) -> DatabaseResult<bool> {
        Ok(true)
    }

    fn toggle_event_participation(
        &self,
        _user_id: u64,
        _username: String,
    ) -> DatabaseResult<ParticipantUpdate> {
        if self.should_fail {
            Err(DatabaseError::QueryError("Mock DB Error".to_string()))
        } else {
            Ok(ParticipantUpdate::new(
                1,
                ToggledParticipation::UserJoined(1),
            ))
        }
    }

    fn get_drawn_names(&self) -> DatabaseResult<Assignments> {
        if self.should_fail {
            Err(DatabaseError::QueryError("Mock DB Error".to_string()))
        } else {
            Ok(vec![(1, 2), (2, 1)])
        }
    }
}

struct MockGotdDB {
    should_fail: bool,
}

impl GotdTrait for MockGotdDB {
    fn insert_gif(&self, _user_id: u64, _username: String, _url: String) -> DatabaseResult<()> {
        if self.should_fail {
            Err(DatabaseError::QueryError("Mock DB Error".to_string()))
        } else {
            Ok(())
        }
    }

    fn select_random_gif(&self) -> DatabaseResult<(u64, String)> {
        Ok((0, "".to_string())) // Not used in submit logic
    }
}

struct MockGifValidator {
    should_fail: bool,
}

impl GifValidator for MockGifValidator {
    fn validate(&self, _url: &str) -> Result<(), UrlValidationError> {
        if self.should_fail {
            Err(UrlValidationError::InvalidScheme)
        } else {
            Ok(())
        }
    }
}

struct MockPokeAPIService {
    response: PokeAPIResult,
}

impl PokeAPIService for MockPokeAPIService {
    fn get_hidden_ability(&self, api_name: &str) -> PokeAPIResult {
        match api_name {
            "porygon" | "porygon2" | "porygon-z" => Ok("analytic".to_string()),
            "rotom" => Ok(NO_HIDDEN_ABILITY.to_string()),
            "golem-alola" => Ok("galvanize".to_string()),
            "missingno" => Err(PokeAPIError::NonSuccessStatus(
                "missingno".to_string(),
                404,
            )),
            _ => self.response.clone(),
        }
    }
}

#[test]
fn test_get_response_content() {
    assert_eq!(ping::get_response_content(), "Hey, I'm alive!");
}

#[test]
fn test_get_response_content_found() {
    let mut config = HashMap::new();
    config.insert(123, "exile_account".to_string());

    let result = poe::get_response_content(123, &config);
    assert_eq!(
        result,
        "https://www.pathofexile.com/account/view-profile/exile_account/characters"
    );
}

#[test]
fn test_get_response_content_not_found() {
    let config = HashMap::new();
    let result = poe::get_response_content(456, &config);
    assert_eq!(result, "This user does not have an account linked");
}

#[test]
fn test_start_new_event_logic() {
    let db = MockSecretDB { should_fail: false };
    let result = start_new_event_logic(&db);
    assert!(result.is_ok());
    assert_eq!(result.unwrap().content, "New event has begun!");
}

#[test]
fn test_toggle_event_participation_logic() {
    let db = MockSecretDB { should_fail: false };
    let result = toggle_event_participation_logic(1, "user".to_string(), &db);
    assert!(result.is_ok());
    let response = result.unwrap();
    assert!(response.content.contains("has joined the event"));
}

#[test]
fn test_admin_response() {
    let response = admin_response();
    assert!(response.is_ok());
    let data = response.unwrap();
    assert_eq!(data.content, "Hello admin!");
    assert!(data.buttons.contains(&"start_new_event".to_string()));
}

#[test]
fn test_user_response_found() {
    let db = MockSecretDB { should_fail: false };
    // User 1 has giftee 2
    let result = user_response(1, &db);
    assert!(result.is_ok());
    assert!(result.unwrap().content.contains("Your giftee is"));
}

#[test]
fn test_user_response_not_found() {
    let db = MockSecretDB { should_fail: false };
    // User 3 has no giftee
    let result = user_response(3, &db);
    assert!(result.is_ok());
    assert!(result.unwrap().content.contains("No giftee found"));
}

#[test]
fn submit_gif_success() {
    let db = MockGotdDB { should_fail: false };
    let validator = MockGifValidator { should_fail: false };
    let result = submit_gif_logic(
        "https://example.com/image.gif".to_string(),
        123,
        "user".to_string(),
        &db,
        &validator,
    );
    assert!(result.is_ok());
}

#[test]
fn submit_gif_validation_failure() {
    let db = MockGotdDB { should_fail: false };
    let validator = MockGifValidator { should_fail: true };
    let result = submit_gif_logic(
        "bad_url".to_string(),
        123,
        "user".to_string(),
        &db,
        &validator,
    );
    // Expecting UrlValidationError converted to CommandError
    assert!(matches!(result, Err(CommandError::UrlValidation(_))));
}

#[test]
fn submit_gif_db_failure() {
    let db = MockGotdDB { should_fail: true };
    let validator = MockGifValidator { should_fail: false };
    let result = submit_gif_logic(
        "https://example.com/image.gif".to_string(),
        123,
        "user".to_string(),
        &db,
        &validator,
    );
    // Expecting DatabaseError converted to CommandError
    assert!(matches!(result, Err(CommandError::Database(_))));
}

#[test]
fn porygons_ha_is_analytic() {
    let service = MockPokeAPIService {
        response: Ok("".to_string()),
    };
    let result = get_hidden_abilities(vec!["porygon"], &service);
    assert_eq!("porygon: analytic\n", result);
}

#[test]
fn porygon_family_ha_is_analytic() {
    let service = MockPokeAPIService {
        response: Ok("".to_string()),
    };
    let result = get_hidden_abilities(vec!["porygon", "porygon2", "porygon-z"], &service);
    assert_eq!(
        "porygon: analytic\nporygon2: analytic\nporygon-z: analytic\n",
        result
    );
}

#[test]
fn rotom_has_no_ha() {
    let service = MockPokeAPIService {
        response: Ok("".to_string()),
    };
    let result = get_hidden_abilities(vec!["rotom"], &service);
    assert_eq!(format!("rotom: {}\n", NO_HIDDEN_ABILITY), result);
}

#[test]
fn golem_alola_ha_is_galvanize() {
    let service = MockPokeAPIService {
        response: Ok("".to_string()),
    };
    let result = get_hidden_abilities(vec!["golem-alola"], &service);
    assert_eq!("golem-alola: galvanize\n", result);
}

#[test]
fn invalid_name_is_rejected() {
    let service = MockPokeAPIService {
        response: Ok("".to_string()),
    };
    let result = get_hidden_abilities(vec!["./:-"], &service);
    assert!(result.contains("Name is not valid for PokeAPI"));
}

#[test]
fn a_valid_name_is_accepted() {
    let name = "Jigglypuff".to_string();
    assert!(convert_to_pokeapi_name(name).is_ok());
}

#[test]
fn empty_string_is_rejected() {
    let name = "".to_string();
    assert!(convert_to_pokeapi_name(name).is_err());
}

#[test]
fn a_name_with_forbidden_characters_is_rejected() {
    let name = "Test/".to_string();
    assert!(convert_to_pokeapi_name(name).is_err());
}

#[test]
fn a_name_that_is_too_short_is_rejected() {
    let name = "a".repeat(MIN_CHARS - 1).to_string();
    assert!(convert_to_pokeapi_name(name).is_err());
}

#[test]
fn a_name_that_is_too_long_is_rejected() {
    let name = "a".repeat(MAX_CHARS + 1).to_string();
    assert!(convert_to_pokeapi_name(name).is_err());
}

#[test]
fn names_are_handed_back_as_they_came() {
    assert_eq!(
        convert_to_pokeapi_name("Mr. Mime".to_string()),
        Ok("Mr. Mime".to_string())
    );
    assert_eq!(
        convert_to_pokeapi_name("Farfetch'd".to_string()),
        Ok("Farfetch'd".to_string())
    );
    assert_eq!(
        convert_to_pokeapi_name("Nidoran\u{2640}".to_string()),
        Ok("Nidoran\u{2640}".to_string())
    );
    assert_eq!(
        convert_to_pokeapi_name("PORYGON2".to_string()),
        Ok("PORYGON2".to_string())
    );
    assert_eq!(
        convert_to_pokeapi_name("Type: Null".to_string()),
        Ok("Type: Null".to_string())
    );
    assert_eq!(
        convert_to_pokeapi_name("Porygon3".to_string()),
        Err(PokeAPIError::InvalidPokeAPIName("Porygon3".to_string()))
    );
    assert_eq!(
        convert_to_pokeapi_name("a.b".to_string()),
        Err(PokeAPIError::InvalidPokeAPIName("a.b".to_string()))
    );
}

#[test]
fn names_are_judged_by_length_after_normalizing() {
    assert!(check_api_name("mew"));
    assert!(!check_api_name("me"));
    assert!(!check_api_name("m.e."));
    assert!(check_api_name("m.e.w"));
    assert!(check_api_name(&"a".repeat(MAX_CHARS)));
    assert!(!check_api_name(&"a".repeat(MAX_CHARS + 1)));
    assert!(check_api_name(&format!("{}...", "a".repeat(MAX_CHARS))));
    assert!(check_api_name("mr mime"));
    assert!(!check_api_name("Mew"));
    assert!(!check_api_name("mew3"));
    assert!(check_api_name("nidoran\u{2642}"));
    assert!(check_api_name("   "));
    assert!(!check_api_name("  "));
    assert!(check_api_name("a b"));
}

#[test]
fn hidden_ability_is_the_last_one_marked_hidden() {
    let ability = |name: &str, is_hidden: bool| Ability {
        name: name.to_string(),
        is_hidden,
    };
    assert_eq!(
        RealPokeAPIService::extract_hidden_ability(&vec![]),
        NO_HIDDEN_ABILITY
    );
    assert_eq!(
        RealPokeAPIService::extract_hidden_ability(&vec![
            ability("trace", false),
            ability("download", false),
            ability("analytic", true)
        ]),
        "analytic"
    );
    assert_eq!(
        RealPokeAPIService::extract_hidden_ability(&vec![
            ability("first", true),
            ability("second", true),
            ability("plain", false)
        ]),
        "second"
    );
    assert_eq!(
        RealPokeAPIService::extract_hidden_ability(&vec![ability("levitate", false)]),
        "No Hidden Ability"
    );
    let _service = RealPokeAPIService::new();
}

#[test]
fn lookup_lines() {
    assert_eq!(
        format_lookup("porygon", &Ok("analytic".to_string())),
        "porygon: analytic\n"
    );
    assert_eq!(
        format_lookup(
            "missingno",
            &Err(PokeAPIError::NonSuccessStatus("missingno".to_string(), 404))
        ),
        "missingno: 404"
    );
    let service = MockPokeAPIService {
        response: Err(PokeAPIError::InvalidContentType("no json".to_string())),
    };
    assert_eq!(
        format_hidden_ability("Eevee", &service),
        "Pokemon not found: no json"
    );
    assert_eq!(
        format_hidden_ability("x", &service),
        "Name is not valid for PokeAPI: x"
    );
    assert_eq!(get_hidden_abilities(vec![], &service), "");
    assert_eq!(
        get_hidden_abilities(vec!["porygon", "?", "rotom"], &service),
        "porygon: analytic\nName is not valid for PokeAPI: ?rotom: No Hidden Ability\n"
    );
}

#[test]
fn error_texts() {
    assert_eq!(
        DatabaseError::PoolError("timed out".to_string()).to_string(),
        "A connection to the database could not be opened: timed out"
    );
    assert_eq!(
        DatabaseError::QueryError("UNIQUE constraint failed: gifs.url".to_string()).to_string(),
        "Failed to run query: UNIQUE constraint failed: gifs.url"
    );
    assert_eq!(
        DatabaseError::TaskError("cancelled".to_string()).to_string(),
        "Failed to execute the task"
    );
    assert_eq!(
        DatabaseError::JoinEventError().to_string(),
        "Cannot join event as names have already been drawn"
    );
    assert_eq!(
        DatabaseError::NoValidAssignment.to_string(),
        "No valid assignment of names exists for this event"
    );
    assert_eq!(
        PokeAPIError::NonSuccessStatus("missingno".to_string(), 404).to_string(),
        "missingno: 404"
    );
    assert_eq!(
        PokeAPIError::InvalidContentType("x".to_string()).to_string(),
        "Pokemon not found: x"
    );
    assert_eq!(
        PokeAPIError::InvalidPokeAPIName("./:-".to_string()).to_string(),
        "Name is not valid for PokeAPI: ./:-"
    );
    assert_eq!(
        UrlValidationError::InvalidScheme.to_string(),
        "The URL must use the HTTP or HTTPS scheme"
    );
    assert_eq!(UrlValidationError::NonSuccessStatus(404).to_string(), "404");
    assert_eq!(
        UrlValidationError::InvalidContentType("text/html".to_string()).to_string(),
        "text/html"
    );
    assert_eq!(
        CommandError::InvalidOption("How did you input a non-string?".to_string()).to_string(),
        "Invalid option: How did you input a non-string?"
    );
    assert_eq!(
        CommandError::Database(DatabaseError::QueryError(
            "UNIQUE constraint failed: gifs.url".to_string()
        ))
        .to_string(),
        "Database error: Failed to run query: UNIQUE constraint failed: gifs.url"
    );
    assert_eq!(
        CommandError::UrlValidation(UrlValidationError::InvalidScheme).to_string(),
        "URL Validation error: The URL must use the HTTP or HTTPS scheme"
    );
    assert_eq!(
        CommandError::PokeAPI(PokeAPIError::InvalidContentType("x".to_string())).to_string(),
        "PokeAPI error: Pokemon not found: x"
    );
    assert_eq!(CommandError::Generic("plain".to_string()).to_string(), "plain");
}

#[test]
fn verdicts_on_tests() {
    assert_eq!(
        verify_output("test_ha_success", "porygon: analytic\n".to_string()),
        "test_ha_success: Test Passed"
    );
    assert_eq!(
        verify_output("test_ha_success", "porygon: download\n".to_string()),
        "test_ha_success: Test Failed: porygon: download\n"
    );
    assert_eq!(
        verify_output(
            "test_ha_error",
            "missingno: Non-success status code: 404\n".to_string()
        ),
        "test_ha_error: Test Passed"
    );
    assert_eq!(
        verify_output(
            "test_poe_success",
            "https://www.pathofexile.com/account/view-profile/flyingrhino/characters".to_string()
        ),
        "test_poe_success: Test Passed"
    );
    assert_eq!(
        verify_output(
            "test_poe_error",
            "This user does not have an account linked".to_string()
        ),
        "test_poe_error: Test Passed"
    );
    assert_eq!(
        verify_output(
            "test_db_error",
            "Database error: Failed to run query: UNIQUE constraint failed: gifs.url".to_string()
        ),
        "test_db_error: Test Passed"
    );
    assert_eq!(
        verify_output("test_poe_error", "porygon: analytic\n".to_string()),
        "test_poe_error: Test Failed: porygon: analytic\n"
    );
    assert_eq!(
        verify_output("unknown", "Unknown button".to_string()),
        "unknown: Test Failed: Unknown button"
    );
}

#[test]
fn mentions_and_announcements() {
    assert_eq!(mention(0), "<@0>");
    assert_eq!(mention(7), "<@7>");
    assert_eq!(mention(248966803139723264), "<@248966803139723264>");
    assert_eq!(mention(u64::MAX), "<@18446744073709551615>");
    let joined = ParticipantUpdate::new(7, ToggledParticipation::UserJoined(12));
    assert_eq!(
        joined.announcement(2024),
        "<@12> has joined the event! 2024 has 7 participants"
    );
    let left = ParticipantUpdate::new(5, ToggledParticipation::UserLeft(340));
    assert_eq!(
        left.announcement(-5),
        "<@340> has left the event. -5 has 5 participants"
    );
    assert_eq!(
        left.announcement(i32::MIN),
        "<@340> has left the event. -2147483648 has 5 participants"
    );
    let now = joined.to_string();
    assert!(now.starts_with("<@12> has joined the event! "));
    assert!(now.ends_with(" has 7 participants"));
    assert_eq!(
        assignment_message(99, 2025),
        "\u{1F389} Your Secret Santa assignment for the 2025 event is <@99>! \u{1F389}"
    );
    let requests = notifications(&vec![(1, 2), (2, 3), (3, 1)], 2024);
    assert_eq!(requests.len(), 3);
    assert_eq!(requests[1].recipient, 2);
    assert_eq!(
        requests[1].content,
        "\u{1F389} Your Secret Santa assignment for the 2024 event is <@3>! \u{1F389}"
    );
    assert!(notifications(&vec![], 2024).is_empty());
}

#[test]
fn secret_responses() {
    assert_eq!(get_button_label("start_new_event"), "Create New Secret Santa Event");
    assert_eq!(get_button_label("draw_names"), "Draw Names");
    assert_eq!(
        get_button_label("toggle_event_participation"),
        "Join (or Leave) Secret Santa"
    );
    assert_eq!(get_button_label("other"), "How did you conjure this??");
    let admin = admin_response().unwrap();
    assert_eq!(admin.buttons, vec!["start_new_event", "draw_names"]);
    let found = giftee_response(Ok(Some(2))).unwrap();
    assert_eq!(found.content, "Your giftee is <@2>");
    assert!(found.buttons.is_empty());
    let missing = giftee_response(Ok(None)).unwrap();
    assert_eq!(
        missing.content,
        "No giftee found - are you a participant for this event?"
    );
    assert!(matches!(
        giftee_response(Err(DatabaseError::PoolError("x".to_string()))),
        Err(CommandError::Database(DatabaseError::PoolError(_)))
    ));
    let opened = new_event_response(Ok(())).unwrap();
    assert_eq!(opened.content, "New event has begun!");
    assert_eq!(opened.buttons, vec!["toggle_event_participation"]);
    assert!(matches!(
        new_event_response(Err(DatabaseError::QueryError("dup".to_string()))),
        Err(CommandError::Database(DatabaseError::QueryError(_)))
    ));
    let toggled = toggle_response(
        Ok(ParticipantUpdate::new(3, ToggledParticipation::UserLeft(4))),
        2024,
    )
    .unwrap();
    assert_eq!(
        toggled.content,
        "<@4> has left the event. 2024 has 3 participants"
    );
    assert!(matches!(
        toggle_response(Err(DatabaseError::JoinEventError()), 2024),
        Err(CommandError::Database(DatabaseError::JoinEventError()))
    ));
    let failing = MockSecretDB { should_fail: true };
    assert!(matches!(
        start_new_event_logic(&failing),
        Err(CommandError::Database(_))
    ));
    assert!(matches!(
        toggle_event_participation_logic(1, "user".to_string(), &failing),
        Err(CommandError::Database(_))
    ));
    assert!(matches!(
        user_response(1, &failing),
        Err(CommandError::Database(_))
    ));
    let working = MockSecretDB { should_fail: false };
    assert_eq!(
        respond(SECRET_ADMIN_ID, &failing).unwrap().content,
        "Hello admin!"
    );
    assert_eq!(respond(1, &working).unwrap().content, "Your giftee is <@2>");
    assert!(respond(1, &failing).is_err());
    assert!(working.is_event_open().unwrap());
    assert_eq!(working.get_drawn_names().unwrap().len(), 2);
}

#[test]
fn addresses_are_judged_by_their_scheme() {
    assert_eq!(
        RealGifValidator::check_address("https://example.com/image.gif"),
        Ok(())
    );
    assert_eq!(
        RealGifValidator::check_address("HTTP://example.com/image.gif"),
        Ok(())
    );
    assert_eq!(
        RealGifValidator::check_address("ftp://example.com/image.gif"),
        Err(UrlValidationError::InvalidScheme)
    );
    assert!(matches!(
        RealGifValidator::check_address("bad_url"),
        Err(UrlValidationError::Parse(_))
    ));
    assert_eq!(RealGifValidator::check_scheme("http"), Ok(()));
    assert_eq!(RealGifValidator::check_scheme("https"), Ok(()));
    assert_eq!(
        RealGifValidator::check_scheme("httpx"),
        Err(UrlValidationError::InvalidScheme)
    );
}

#[test]
fn answers_of_the_server_are_judged() {
    let answer = |status: u16, content_type: ContentType| HeadResponse {
        status,
        content_type,
    };
    let text = |s: &str| ContentType::Text(s.to_string());
    assert_eq!(
        RealGifValidator::check_response(&answer(200, text("image/gif"))),
        Ok(())
    );
    assert_eq!(
        RealGifValidator::check_response(&answer(299, text("Video/WebM; codecs=vp9"))),
        Ok(())
    );
    assert_eq!(
        RealGifValidator::check_response(&answer(204, text("video/mp4"))),
        Ok(())
    );
    assert_eq!(
        RealGifValidator::check_response(&answer(200, text("Text/HTML"))),
        Err(UrlValidationError::InvalidContentType("text/html".to_string()))
    );
    assert_eq!(
        RealGifValidator::check_response(&answer(404, text("image/gif"))),
        Err(UrlValidationError::NonSuccessStatus(404))
    );
    assert_eq!(
        RealGifValidator::check_response(&answer(199, ContentType::Missing)),
        Err(UrlValidationError::NonSuccessStatus(199))
    );
    assert_eq!(
        RealGifValidator::check_response(&answer(300, ContentType::Missing)),
        Err(UrlValidationError::NonSuccessStatus(300))
    );
    assert_eq!(
        RealGifValidator::check_response(&answer(200, ContentType::Missing)),
        Err(UrlValidationError::InvalidContentType(
            "Header Missing".to_string()
        ))
    );
    assert_eq!(
        RealGifValidator::check_response(&answer(200, ContentType::Unreadable)),
        Err(UrlValidationError::InvalidContentType(
            "The header could not be interpreted as string".to_string()
        ))
    );
    assert_eq!(
        RealGifValidator::check_content_type("image/gi".to_string()),
        Err(UrlValidationError::InvalidContentType("image/gi".to_string()))
    );
    assert_eq!(
        RealGifValidator::request_failed(),
        UrlValidationError::InvalidContentType("The header is missing".to_string())
    );
    assert!(insertion_outcome(Ok(())).is_ok());
    assert!(matches!(
        insertion_outcome(Err(DatabaseError::TaskError("x".to_string()))),
        Err(CommandError::Database(DatabaseError::TaskError(_)))
    ));
    let db = MockGotdDB { should_fail: false };
    assert_eq!(db.select_random_gif(), Ok((0, "".to_string())));
}

#[test]
fn undelivered_messages_are_reported_and_nothing_else() {
    let requests = notifications(&vec![(1, 2), (2, 3), (3, 1)], 2024);
    assert!(delivery_report(&requests, &vec![true, true, true]).is_none());
    let report = delivery_report(&requests, &vec![false, true, false]).unwrap();
    assert!(matches!(
        &report,
        CommandError::PartialNotificationFailure(missed) if missed == &vec![1, 3]
    ));
    assert_eq!(report.to_string(), "Could not notify 2 of the participants");
    assert!(delivery_report(&vec![], &vec![]).is_none());
}

struct RecordingGotdDB {
    inserted: RefCell<Vec<(u64, String, String)>>,
    answer: fn() -> DatabaseResult<()>,
}

impl GotdTrait for RecordingGotdDB {
    fn insert_gif(&self, user_id: u64, username: String, url: String) -> DatabaseResult<()> {
        self.inserted.borrow_mut().push((user_id, username, url));
        (self.answer)()
    }

    fn select_random_gif(&self) -> DatabaseResult<(u64, String)> {
        Err(DatabaseError::QueryError("no gifs".to_string()))
    }
}

struct RecordingValidator {
    asked: RefCell<Vec<String>>,
    answer: fn() -> Result<(), UrlValidationError>,
}

impl GifValidator for RecordingValidator {
    fn validate(&self, url: &str) -> Result<(), UrlValidationError> {
        self.asked.borrow_mut().push(url.to_string());
        (self.answer)()
    }
}

#[test]
fn submission_asks_the_validator_and_then_hands_the_gif_to_the_store() {
    let db = RecordingGotdDB {
        inserted: RefCell::new(vec![]),
        answer: || Ok(()),
    };
    let validator = RecordingValidator {
        asked: RefCell::new(vec![]),
        answer: || Ok(()),
    };
    let result = submit_gif_logic(
        "https://example.com/image.gif".to_string(),
        123,
        "user".to_string(),
        &db,
        &validator,
    );
    assert!(result.is_ok());
    assert_eq!(
        validator.asked.borrow().clone(),
        vec!["https://example.com/image.gif".to_string()]
    );
    assert_eq!(
        db.inserted.borrow().clone(),
        vec![(
            123,
            "user".to_string(),
            "https://example.com/image.gif".to_string()
        )]
    );
}

#[test]
fn refused_submission_does_not_reach_the_store() {
    let db = RecordingGotdDB {
        inserted: RefCell::new(vec![]),
        answer: || Ok(()),
    };
    let validator = RecordingValidator {
        asked: RefCell::new(vec![]),
        answer: || Err(UrlValidationError::NonSuccessStatus(404)),
    };
    let result = submit_gif_logic(
        "https://example.com/gone.gif".to_string(),
        5,
        "user".to_string(),
        &db,
        &validator,
    );
    assert!(matches!(
        result,
        Err(CommandError::UrlValidation(
            UrlValidationError::NonSuccessStatus(404)
        ))
    ));
    assert_eq!(validator.asked.borrow().len(), 1);
    assert!(db.inserted.borrow().is_empty());
}

#[test]
fn failure_of_the_store_is_the_failure_of_the_submission() {
    let db = RecordingGotdDB {
        inserted: RefCell::new(vec![]),
        answer: || {
            Err(DatabaseError::QueryError(
                "UNIQUE constraint failed: gifs.url".to_string(),
            ))
        },
    };
    let validator = RecordingValidator {
        asked: RefCell::new(vec![]),
        answer: || Ok(()),
    };
    let result = submit_gif_logic(
        "https://example.com/twice.gif".to_string(),
        5,
        "user".to_string(),
        &db,
        &validator,
    );
    match result {
        Err(CommandError::Database(why)) => assert_eq!(
            why,
            DatabaseError::QueryError("UNIQUE constraint failed: gifs.url".to_string())
        ),
        _ => panic!("the failure of the store was not returned"),
    }
    assert_eq!(db.inserted.borrow().len(), 1);
}

struct RecordingSecretDB {
    toggled: RefCell<Vec<(u64, String)>>,
    answer: fn() -> DatabaseResult<ParticipantUpdate>,
}

impl SecretSantaTrait for RecordingSecretDB {
    fn get_latest_giftee(&self, _user_id: u64) -> DatabaseResult<Assignee> {
        Ok(None)
    }

    fn start_new_event(&self) -> DatabaseResult<()> {
        Ok(())
    }

    fn is_event_open(&self) -> DatabaseResult<bool> {
        Ok(true)
    }

    fn toggle_event_participation(
        &self,
        user_id: u64,
        username: String,
    ) -> DatabaseResult<ParticipantUpdate> {
        self.toggled.borrow_mut().push((user_id, username));
        (self.answer)()
    }

    fn get_drawn_names(&self) -> DatabaseResult<Assignments> {
        Ok(vec![])
    }
}

#[test]
fn toggle_answers_with_the_announcement_of_what_the_store_returned() {
    let db = RecordingSecretDB {
        toggled: RefCell::new(vec![]),
        answer: || Ok(ParticipantUpdate::new(6, ToggledParticipation::UserLeft(77))),
    };
    let before = current_year();
    let response = toggle_event_participation_logic(77, "Seventy".to_string(), &db).unwrap();
    let after = current_year();
    assert_eq!(
        db.toggled.borrow().clone(),
        vec![(77, "Seventy".to_string())]
    );
    assert!(response.buttons.is_empty());
    let expected = |year: i32| format!("<@77> has left the event. {} has 6 participants", year);
    assert!(response.content == expected(before) || response.content == expected(after));
}

#[test]
fn toggle_returns_the_failure_of_the_store() {
    let db = RecordingSecretDB {
        toggled: RefCell::new(vec![]),
        answer: || Err(DatabaseError::JoinEventError()),
    };
    let result = toggle_event_participation_logic(3, "Three".to_string(), &db);
    match result {
        Err(CommandError::Database(why)) => assert_eq!(why, DatabaseError::JoinEventError()),
        _ => panic!("the failure of the store was not returned"),
    }
    assert_eq!(db.toggled.borrow().clone(), vec![(3, "Three".to_string())]);
}

struct RecordingPokeAPIService {
    asked: RefCell<Vec<String>>,
}

impl PokeAPIService for RecordingPokeAPIService {
    fn get_hidden_ability(&self, api_name: &str) -> PokeAPIResult {
        self.asked.borrow_mut().push(api_name.to_string());
        if api_name == "MissingNo." {
            Err(PokeAPIError::NonSuccessStatus(api_name.to_string(), 404))
        } else {
            Ok("analytic".to_string())
        }
    }
}

#[test]
fn the_service_is_asked_once_for_each_name_that_is_not_refused() {
    let service = RecordingPokeAPIService {
        asked: RefCell::new(vec![]),
    };
    let report = get_hidden_abilities(
        vec!["porygon", "??", "Porygon2", "MissingNo.", "porygon-z"],
        &service,
    );
    assert_eq!(
        report,
        "porygon: analytic\nName is not valid for PokeAPI: ??Porygon2: analytic\nMissingNo.: 404porygon-z: analytic\n"
    );
    assert_eq!(
        service.asked.borrow().clone(),
        vec!["porygon", "Porygon2", "MissingNo.", "porygon-z"]
    );
    service.asked.borrow_mut().clear();
    assert_eq!(
        format_hidden_ability("./:-", &service),
        "Name is not valid for PokeAPI: ./:-"
    );
    assert!(service.asked.borrow().is_empty());
    assert_eq!(format_hidden_ability("Mew", &service), "Mew: analytic\n");
    assert_eq!(service.asked.borrow().clone(), vec!["Mew"]);
}

struct RecordingLookupDB {
    asked: RefCell<Vec<u64>>,
    opened: RefCell<u32>,
    fails: bool,
}

impl SecretSantaTrait for RecordingLookupDB {
    fn get_latest_giftee(&self, user_id: u64) -> DatabaseResult<Assignee> {
        self.asked.borrow_mut().push(user_id);
        if self.fails {
            Err(DatabaseError::PoolError("no connection".to_string()))
        } else if user_id == 10 {
            Ok(Some(20))
        } else {
            Ok(None)
        }
    }

    fn start_new_event(&self) -> DatabaseResult<()> {
        *self.opened.borrow_mut() += 1;
        if self.fails {
            Err(DatabaseError::QueryError(
                "UNIQUE constraint failed: events.event_id".to_string(),
            ))
        } else {
            Ok(())
        }
    }

    fn is_event_open(&self) -> DatabaseResult<bool> {
        Ok(true)
    }

    fn toggle_event_participation(
        &self,
        _user_id: u64,
        _username: String,
    ) -> DatabaseResult<ParticipantUpdate> {
        Err(DatabaseError::JoinEventError())
    }

    fn get_drawn_names(&self) -> DatabaseResult<Assignments> {
        Ok(vec![])
    }
}

fn recording_lookup(fails: bool) -> RecordingLookupDB {
    RecordingLookupDB {
        asked: RefCell::new(vec![]),
        opened: RefCell::new(0),
        fails,
    }
}

#[test]
fn the_store_is_asked_for_the_giftee_of_the_user_who_asks() {
    let db = recording_lookup(false);
    let found = user_response(10, &db).unwrap();
    assert_eq!(found.content, "Your giftee is <@20>");
    assert!(found.buttons.is_empty());
    let missing = respond(11, &db).unwrap();
    assert_eq!(
        missing.content,
        "No giftee found - are you a participant for this event?"
    );
    assert_eq!(db.asked.borrow().clone(), vec![10, 11]);
    let admin = respond(SECRET_ADMIN_ID, &db).unwrap();
    assert_eq!(admin.content, "Hello admin!");
    assert_eq!(admin.buttons, vec!["start_new_event", "draw_names"]);
    assert_eq!(db.asked.borrow().clone(), vec![10, 11]);
    let failing = recording_lookup(true);
    match user_response(10, &failing) {
        Err(CommandError::Database(why)) => assert_eq!(
            why,
            DatabaseError::PoolError("no connection".to_string())
        ),
        _ => panic!("the failure of the store was not returned"),
    }
    assert_eq!(failing.asked.borrow().clone(), vec![10]);
}

#[test]
fn the_store_is_asked_once_to_open_the_event() {
    let db = recording_lookup(false);
    let opened = start_new_event_logic(&db).unwrap();
    assert_eq!(opened.content, "New event has begun!");
    assert_eq!(opened.buttons, vec!["toggle_event_participation"]);
    assert_eq!(*db.opened.borrow(), 1);
    let failing = recording_lookup(true);
    match start_new_event_logic(&failing) {
        Err(CommandError::Database(why)) => assert_eq!(
            why,
            DatabaseError::QueryError("UNIQUE constraint failed: events.event_id".to_string())
        ),
        _ => panic!("the failure of the store was not returned"),
    }
    assert_eq!(*failing.opened.borrow(), 1);
}
