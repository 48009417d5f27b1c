//! What a command can fail with.

use crate::commands::gotd::UrlValidationError;
use crate::database::DatabaseError;
use crate::services::pokeapi::PokeAPIError;
use vstd::prelude::*;
use vstd::string::StringExecFns;

verus! {

/// What a command can fail with.
#[derive(Debug)]
pub enum CommandError {
    InvalidOption(String),
    Database(DatabaseError),
    UrlValidation(UrlValidationError),
    PokeAPI(PokeAPIError),
    /// The names were drawn and recorded, but these participants could not
    /// be told their giftee.
    PartialNotificationFailure(Vec<u64>),
    Generic(String),
}

/// What a user reads of a failure of the store.
pub open spec fn database_error_text(error: DatabaseError) -> Seq<char> {
    match error {
        DatabaseError::PoolError(detail) => "A connection to the database could not be opened: "@
            + detail@,
        DatabaseError::QueryError(detail) => "Failed to run query: "@ + detail@,
        DatabaseError::TaskError(_) => "Failed to execute the task"@,
        DatabaseError::JoinEventError() => "Cannot join event as names have already been drawn"@,
        DatabaseError::NoValidAssignment => "No valid assignment of names exists for this event"@,
    }
}

/// What a user reads of a failure of the pokemon lookup.
pub open spec fn pokeapi_error_text(error: PokeAPIError) -> Seq<char> {
    match error {
        PokeAPIError::NonSuccessStatus(name, status) => name@ + ": "@
            + crate::text::decimal_digits(status as nat),
        PokeAPIError::InvalidContentType(detail) => "Pokemon not found: "@ + detail@,
        PokeAPIError::InvalidPokeAPIName(name) => "Name is not valid for PokeAPI: "@ + name@,
    }
}

/// What a user reads of a refused address.
pub open spec fn url_error_text(error: UrlValidationError) -> Seq<char> {
    match error {
        UrlValidationError::InvalidScheme => "The URL must use the HTTP or HTTPS scheme"@,
        UrlValidationError::NonSuccessStatus(status) => crate::text::decimal_digits(status as nat),
        UrlValidationError::InvalidContentType(detail) => detail@,
        UrlValidationError::Parse(_) => "Could not parse url"@,
    }
}

/// What a user reads of a failed command.
pub open spec fn command_error_text(error: CommandError) -> Seq<char> {
    match error {
        CommandError::InvalidOption(detail) => "Invalid option: "@ + detail@,
        CommandError::Database(inner) => "Database error: "@ + database_error_text(inner),
        CommandError::UrlValidation(inner) => "URL Validation error: "@ + url_error_text(inner),
        CommandError::PokeAPI(inner) => "PokeAPI error: "@ + pokeapi_error_text(inner),
        CommandError::PartialNotificationFailure(missed) => "Could not notify "@
            + crate::text::decimal_digits(missed@.len()) + " of the participants"@,
        CommandError::Generic(detail) => detail@,
    }
}

impl DatabaseError {
    /// What a user reads of the failure.
    pub fn to_string(&self) -> (text: String)
        ensures
            text@ == database_error_text(*self),
    {
        match self {
            DatabaseError::PoolError(detail) => {
                let mut text = "A connection to the database could not be opened: ".to_owned();
                text.append(detail.as_str());
                text
            },
            DatabaseError::QueryError(detail) => {
                let mut text = "Failed to run query: ".to_owned();
                text.append(detail.as_str());
                text
            },
            DatabaseError::TaskError(_) => "Failed to execute the task".to_owned(),
            DatabaseError::JoinEventError() => "Cannot join event as names have already been drawn".to_owned(),
            DatabaseError::NoValidAssignment => "No valid assignment of names exists for this event".to_owned(),
        }
    }
}

impl PokeAPIError {
    /// What a user reads of the failure.
    pub fn to_string(&self) -> (text: String)
        ensures
            text@ == pokeapi_error_text(*self),
    {
        match self {
            PokeAPIError::NonSuccessStatus(name, status) => {
                let mut text = name.clone();
                text.append(": ");
                let digits = crate::text::decimal(*status as u64);
                text.append(digits.as_str());
                text
            },
            PokeAPIError::InvalidContentType(detail) => {
                let mut text = "Pokemon not found: ".to_owned();
                text.append(detail.as_str());
                text
            },
            PokeAPIError::InvalidPokeAPIName(name) => {
                let mut text = "Name is not valid for PokeAPI: ".to_owned();
                text.append(name.as_str());
                text
            },
        }
    }
}

impl UrlValidationError {
    /// What a user reads of the refusal.
    pub fn to_string(&self) -> (text: String)
        ensures
            text@ == url_error_text(*self),
    {
        match self {
            UrlValidationError::InvalidScheme => "The URL must use the HTTP or HTTPS scheme".to_owned(),
            UrlValidationError::NonSuccessStatus(status) => crate::text::decimal(*status as u64),
            UrlValidationError::InvalidContentType(detail) => detail.clone(),
            UrlValidationError::Parse(_) => "Could not parse url".to_owned(),
        }
    }
}

impl CommandError {
    /// What a user reads of the failure.
    pub fn to_string(&self) -> (text: String)
        ensures
            text@ == command_error_text(*self),
    {
        match self {
            CommandError::InvalidOption(detail) => {
                let mut text = "Invalid option: ".to_owned();
                text.append(detail.as_str());
                text
            },
            CommandError::Database(inner) => {
                let mut text = "Database error: ".to_owned();
                let detail = inner.to_string();
                text.append(detail.as_str());
                text
            },
            CommandError::UrlValidation(inner) => {
                let mut text = "URL Validation error: ".to_owned();
                let detail = inner.to_string();
                text.append(detail.as_str());
                text
            },
            CommandError::PokeAPI(inner) => {
                let mut text = "PokeAPI error: ".to_owned();
                let detail = inner.to_string();
                text.append(detail.as_str());
                text
            },
            CommandError::PartialNotificationFailure(missed) => {
                let mut text = "Could not notify ".to_owned();
                let count = crate::text::decimal(missed.len() as u64);
                text.append(count.as_str());
                text.append(" of the participants");
                text
            },
            CommandError::Generic(detail) => detail.clone(),
        }
    }
}

} // verus!
