//! Submitting a gif of the day: which addresses are accepted.

use crate::commands::error::CommandError;
use crate::database::DatabaseResult;
use crate::text::{has_prefix, lowercase_of, to_lowercase};
use url::Url;
use vstd::prelude::*;

verus! {

/// The error of `url::Url::parse`; nothing of it is looked into.
#[verifier::external_type_specification]
#[verifier::external_body]
pub struct ExParseError(url::ParseError);

/// Why an address is refused.
#[derive(Debug, PartialEq)]
pub enum UrlValidationError {
    /// The address is neither an http nor an https address.
    InvalidScheme,
    /// The server answered with this status, which is no success.
    NonSuccessStatus(u16),
    /// What the address leads to is no gif and no video, or cannot be told.
    InvalidContentType(String),
    /// The text is no address.
    Parse(url::ParseError),
}

/// Where gifs are kept.
pub trait GotdTrait {
    fn insert_gif(&self, user_id: u64, username: String, url: String) -> DatabaseResult<()>;

    fn select_random_gif(&self) -> DatabaseResult<(u64, String)>;
}

/// What decides whether an address is accepted.
pub trait GifValidator {
    fn validate(&self, url: &str) -> Result<(), UrlValidationError>;
}

/// What the server said of the content type when asked for the head of an
/// address.
#[derive(Debug)]
pub enum ContentType {
    /// The answer has no such header.
    Missing,
    /// The header is no text.
    Unreadable,
    /// The header, as the server sent it.
    Text(String),
}

/// The answer of a server that was asked for the head of an address.
#[derive(Debug)]
pub struct HeadResponse {
    pub status: u16,
    pub content_type: ContentType,
}

/// The scheme of an absolute address, as `url::Url::parse` and
/// `url::Url::scheme` find it; `None` for a text that is no such address.
pub uninterp spec fn scheme_of(text: Seq<char>) -> Option<Seq<char>>;

/// Calls `url::Url::parse` and, on success, `url::Url::scheme`. Trusted: the
/// outcome is a function of the text alone; the scheme is handed out where
/// the text parses, the error of the parser where it does not.
#[verifier::external_body]
fn parse_scheme(text: &str) -> (parsed: Result<String, url::ParseError>)
    ensures
        parsed is Ok ==> scheme_of(text@) == Some(parsed->Ok_0@),
        parsed is Err ==> scheme_of(text@) is None,
{
    let url = Url::parse(text)?;
    Ok(url.scheme().to_owned())
}

/// The schemes that an address may have.
pub open spec fn is_web_scheme(scheme: Seq<char>) -> bool {
    scheme == "http"@ || scheme == "https"@
}

/// The status is one of success.
pub open spec fn is_success(status: u16) -> bool {
    200 <= status < 300
}

/// The content types that are accepted: gifs and two kinds of video.
pub open spec fn is_accepted_type(content_type: Seq<char>) -> bool {
    "image/gif"@.is_prefix_of(content_type) || "video/webm"@.is_prefix_of(content_type)
        || "video/mp4"@.is_prefix_of(content_type)
}

/// The rules by which an address and the answer of its server are judged.
pub struct RealGifValidator;

impl RealGifValidator {
    /// Judges the scheme that an address was found to have.
    pub fn check_scheme(scheme: &str) -> (result: Result<(), UrlValidationError>)
        ensures
            is_web_scheme(scheme@) ==> result is Ok,
            !is_web_scheme(scheme@) ==> result matches Err(UrlValidationError::InvalidScheme),
    {
        if crate::text::same_text(scheme, "http") || crate::text::same_text(scheme, "https") {
            Ok(())
        } else {
            Err(UrlValidationError::InvalidScheme)
        }
    }

    /// Judges the text of an address before anything is asked of its server:
    /// it has to be an absolute address with the scheme http or https.
    pub fn check_address(s: &str) -> (result: Result<(), UrlValidationError>)
        ensures
            scheme_of(s@) is None ==> result matches Err(UrlValidationError::Parse(_)),
            scheme_of(s@) is Some && !is_web_scheme(scheme_of(s@)->0)
                ==> result matches Err(UrlValidationError::InvalidScheme),
            scheme_of(s@) is Some && is_web_scheme(scheme_of(s@)->0) ==> result is Ok,
    {
        match parse_scheme(s) {
            Ok(scheme) => Self::check_scheme(scheme.as_str()),
            Err(why) => Err(UrlValidationError::Parse(why)),
        }
    }

    /// Judges a content type that was put in lower case.
    pub fn check_content_type(lowered: String) -> (result: Result<(), UrlValidationError>)
        ensures
            is_accepted_type(lowered@) ==> result is Ok,
            !is_accepted_type(lowered@) ==> result == Err::<(), UrlValidationError>(
                UrlValidationError::InvalidContentType(lowered),
            ),
    {
        if has_prefix(lowered.as_str(), "image/gif") || has_prefix(lowered.as_str(), "video/webm")
            || has_prefix(lowered.as_str(), "video/mp4") {
            Ok(())
        } else {
            Err(UrlValidationError::InvalidContentType(lowered))
        }
    }

    /// Judges what the server answered when asked for the head of the
    /// address: the status has to be one of success, and the content type,
    /// whatever its case, that of a gif or of a video.
    pub fn check_response(response: &HeadResponse) -> (result: Result<(), UrlValidationError>)
        ensures
            !is_success(response.status) ==> result == Err::<(), UrlValidationError>(
                UrlValidationError::NonSuccessStatus(response.status),
            ),
            is_success(response.status) ==> match response.content_type {
                ContentType::Missing => result matches Err(
                    UrlValidationError::InvalidContentType(detail),
                ) && detail@ == "Header Missing"@,
                ContentType::Unreadable => result matches Err(
                    UrlValidationError::InvalidContentType(detail),
                ) && detail@ == "The header could not be interpreted as string"@,
                ContentType::Text(sent) => if is_accepted_type(lowercase_of(sent@)) {
                    result is Ok
                } else {
                    result matches Err(UrlValidationError::InvalidContentType(detail)) && detail@
                        == lowercase_of(sent@)
                },
            },
    {
        if !(200 <= response.status && response.status < 300) {
            return Err(UrlValidationError::NonSuccessStatus(response.status));
        }
        match &response.content_type {
            ContentType::Missing => Err(
                UrlValidationError::InvalidContentType("Header Missing".to_owned()),
            ),
            ContentType::Unreadable => Err(
                UrlValidationError::InvalidContentType(
                    "The header could not be interpreted as string".to_owned(),
                ),
            ),
            ContentType::Text(sent) => Self::check_content_type(to_lowercase(sent.as_str())),
        }
    }

    /// What is reported when the server could not be asked at all.
    pub fn request_failed() -> (error: UrlValidationError)
        ensures
            error matches UrlValidationError::InvalidContentType(detail) && detail@
                == "The header is missing"@,
    {
        UrlValidationError::InvalidContentType("The header is missing".to_owned())
    }
}

/// What a submission comes to once the store has answered the insertion of
/// its gif.
pub open spec fn insertion_result(insertion: DatabaseResult<()>) -> Result<(), CommandError> {
    match insertion {
        Ok(_) => Ok(()),
        Err(why) => Err(CommandError::Database(why)),
    }
}

/// What becomes of a submission whose gif was handed to the store.
pub fn insertion_outcome(insertion: DatabaseResult<()>) -> (result: Result<(), CommandError>)
    ensures
        result == insertion_result(insertion),
{
    match insertion {
        Ok(_) => Ok(()),
        Err(why) => Err(CommandError::Database(why)),
    }
}

/// `validation` is an answer that the validator may give when it is asked
/// about an address with the characters of `url`.
pub open spec fn may_validate<V: GifValidator>(
    validator: &V,
    url: Seq<char>,
    validation: Result<(), UrlValidationError>,
) -> bool {
    exists|address: &str|
        address@ == url && #[trigger] call_ensures(V::validate, (validator, address), validation)
}

/// `insertion` is an answer that the store may give when it is handed the
/// gif at `url`, submitted by the user with this id and name.
pub open spec fn may_insert<D: GotdTrait>(
    db: &D,
    user_id: u64,
    username: String,
    url: String,
    insertion: DatabaseResult<()>,
) -> bool {
    call_ensures(D::insert_gif, (db, user_id, username, url), insertion)
}

/// `result` is what a submission comes to where the validator answered
/// `validation`: its refusal is the failure of the submission; where it
/// accepted the address, the gif was handed to the store, under the id and
/// the name of the submitter, and the answer of the store decides.
pub open spec fn is_submission_result<D: GotdTrait>(
    result: Result<(), CommandError>,
    validation: Result<(), UrlValidationError>,
    db: &D,
    user_id: u64,
    username: String,
    url: String,
) -> bool {
    match validation {
        Err(why) => result == Err::<(), CommandError>(CommandError::UrlValidation(why)),
        Ok(_) => exists|insertion: DatabaseResult<()>| #[trigger]
            may_insert(db, user_id, username, url, insertion) && result == insertion_result(
                insertion,
            ),
    }
}

/// Submits a gif: the address is judged first, and only an accepted one is
/// handed to the store. The failure of either is the failure of the
/// submission.
///
/// The validator is asked once, about the address as it was submitted. If
/// it refuses, the store is not touched and the refusal is returned. If it
/// accepts, the store is handed the gif once, with the id and the name of
/// the submitter, and the submission succeeds exactly if the store does.
pub fn submit_gif_logic<D: GotdTrait, V: GifValidator>(
    url: String,
    invoker_id: u64,
    invoker_name: String,
    db: &D,
    validator: &V,
) -> (result: Result<(), CommandError>)
    ensures
        exists|validation: Result<(), UrlValidationError>| #[trigger]
            may_validate(validator, url@, validation) && is_submission_result(
                result,
                validation,
                db,
                invoker_id,
                invoker_name,
                url,
            ),
        result is Err ==> (result->Err_0 is UrlValidation || result->Err_0 is Database),
{
    let validation = validator.validate(url.as_str());
    assert(may_validate(validator, url@, validation));
    match validation {
        Err(why) => {
            let result = Err(CommandError::UrlValidation(why));
            assert(is_submission_result(result, validation, db, invoker_id, invoker_name, url));
            result
        },
        Ok(_) => {
            let insertion = db.insert_gif(invoker_id, invoker_name, url);
            assert(may_insert(db, invoker_id, invoker_name, url, insertion));
            let result = insertion_outcome(insertion);
            assert(is_submission_result(result, validation, db, invoker_id, invoker_name, url));
            result
        },
    }
}

} // verus!
