//! What the HTTP routes decide: which requests are well-formed, and what is
//! answered. Receiving requests and sending answers is the caller's.

use vstd::prelude::*;
use crate::announcements::{ManualTriggerError, manual_trigger_error_text};
use crate::queue::Call;
use crate::text::{is_ascii_digit, char_is_ascii_digit, chars_of, concat, decimal_text, decimal_string};
use crate::translator::{TranslatorCallError, TranslatorCallOutcome, TranslatorStatus};

verus! {

/// A request to add a call to the queue, or to call it again.
#[derive(Debug, Clone, PartialEq, Eq)]
pub struct AddCallRequest {
    /// The identifier as the operator typed it, such as `A1` or `B123`.
    pub original_id: String,
    /// The counter, in digits.
    pub location: String,
}

/// A request to put a call among the skipped ones directly.
#[derive(Debug, Clone, PartialEq, Eq)]
pub struct ForceSkipRequest {
    pub original_id: String,
    pub location: String,
}

/// A request for the speech of a call in one language.
#[derive(Debug, Clone, PartialEq, Eq)]
pub struct TriggerTTSRequest {
    pub id: String,
    pub location: String,
    pub lang: String,
}

/// A request to call a translator to a counter.
#[derive(Debug, Clone, PartialEq, Eq)]
pub struct CallTranslatorRequest {
    pub location: String,
}

/// The body of an answer that reports an error.
#[derive(Debug, Clone, PartialEq, Eq)]
pub struct ErrorResponse {
    pub error: String,
    /// The seconds to wait, where the error is a cooldown.
    pub remaining_seconds: Option<u64>,
}

/// The body of the answer to a translator call that was accepted.
#[derive(Debug, Clone, PartialEq, Eq)]
pub struct TranslatorSuccessResponse {
    pub message: String,
    pub status: TranslatorStatus,
}

/// The body of the answer to a translator call that was turned down.
#[derive(Debug, Clone, PartialEq, Eq)]
pub struct TranslatorErrorResponse {
    pub error: String,
    /// The seconds to wait, where the call was turned down for the cooldown.
    pub remaining_seconds: Option<u64>,
}

/// The status code of an answer that accepts a request.
pub const STATUS_ACCEPTED: u16 = 202;

/// The status code of an answer to a malformed request.
pub const STATUS_BAD_REQUEST: u16 = 400;

/// The status code of an answer about something that does not exist.
pub const STATUS_NOT_FOUND: u16 = 404;

/// The status code of an answer to a request that came too soon.
pub const STATUS_TOO_MANY_REQUESTS: u16 = 429;

/// The status code of an answer from a service that has nothing to offer.
pub const STATUS_SERVICE_UNAVAILABLE: u16 = 503;

/// What an identifier must look like, in words.
pub open spec fn identifier_format_message() -> Seq<char> {
    "Invalid Identifier format. Must be an uppercase letter followed by digits (e.g., A1, Z99)."@
}

/// What a location must look like, in words.
pub open spec fn location_format_message() -> Seq<char> {
    "Invalid Location format. Must be digits only (e.g., 5, 10)."@
}

/// Whether a text is a call identifier: one capital letter from `A` to `Z`,
/// then one digit or more, and nothing else.
pub open spec fn is_identifier(s: Seq<char>) -> bool {
    &&& s.len() >= 2
    &&& 'A' <= s[0] && s[0] <= 'Z'
    &&& forall|i: int| 1 <= i < s.len() ==> is_ascii_digit(#[trigger] s[i])
}

/// Whether a text is a location: one digit or more, and nothing else.
pub open spec fn is_location(s: Seq<char>) -> bool {
    &&& s.len() >= 1
    &&& forall|i: int| 0 <= i < s.len() ==> is_ascii_digit(#[trigger] s[i])
}

/// Whether all characters of `chars` from index `from` on are digits.
fn digits_from(chars: &Vec<char>, from: usize) -> (r: bool)
    requires
        from <= chars.len(),
    ensures
        r == forall|i: int| from <= i < chars.len() ==> is_ascii_digit(#[trigger] chars@[i]),
{
    let mut i: usize = from;
    while i < chars.len()
        invariant
            from <= i <= chars.len(),
            forall|k: int| from <= k < i ==> is_ascii_digit(#[trigger] chars@[k]),
        decreases chars.len() - i,
    {
        if !char_is_ascii_digit(chars[i]) {
            return false;
        }
        i += 1;
    }
    true
}

/// Accepts a call identifier, or says what is wrong with it.
pub fn validate_identifier(original_id: &str) -> (r: Result<(), String>)
    ensures
        match r {
            Ok(_) => is_identifier(original_id@),
            Err(msg) => !is_identifier(original_id@) && msg@ == identifier_format_message()
                + " Received: "@ + original_id@,
        },
{
    let chars = chars_of(original_id);
    if chars.len() >= 2 && chars[0] >= 'A' && chars[0] <= 'Z' && digits_from(&chars, 1) {
        Ok(())
    } else {
        let mut msg = concat(
            "Invalid Identifier format. Must be an uppercase letter followed by digits (e.g., A1, Z99).",
            " Received: ",
        );
        msg.append(original_id);
        Err(msg)
    }
}

/// Accepts a location, or says what is wrong with it.
pub fn validate_location(location: &str) -> (r: Result<(), String>)
    ensures
        match r {
            Ok(_) => is_location(location@),
            Err(msg) => !is_location(location@) && msg@ == location_format_message()
                + " Received: "@ + location@,
        },
{
    let chars = chars_of(location);
    if chars.len() >= 1 && digits_from(&chars, 0) {
        Ok(())
    } else {
        let mut msg = concat(
            "Invalid Location format. Must be digits only (e.g., 5, 10).",
            " Received: ",
        );
        msg.append(location);
        Err(msg)
    }
}

/// Checks the identifier and the location of a request for the queue, the
/// identifier first.
pub fn check_call_request(original_id: &str, location: &str) -> (r: Result<(), String>)
    ensures
        match r {
            Ok(_) => is_identifier(original_id@) && is_location(location@),
            Err(msg) => if !is_identifier(original_id@) {
                msg@ == identifier_format_message() + " Received: "@ + original_id@
            } else {
                !is_location(location@) && msg@ == location_format_message() + " Received: "@
                    + location@
            },
        },
{
    match validate_identifier(original_id) {
        Ok(_) => validate_location(location),
        Err(msg) => Err(msg),
    }
}

/// The words that answer a call that was added, or the words that answer the
/// failure to add it. `Ok` is sent as accepted, `Err` as a bad request.
pub fn queue_call_reply(added: Option<&Call>) -> (r: Result<String, String>)
    ensures
        match (added, r) {
            (Some(call), Ok(msg)) => msg@ == "Call "@ + call.original_id@ + " with location "@
                + call.location@ + " is now current. TTS initiated."@,
            (None, Err(msg)) => msg@
                == "Failed to process the call. An unexpected server error occurred."@,
            _ => false,
        },
{
    match added {
        Some(call) => {
            let mut msg = concat("Call ", call.original_id.as_str());
            msg.append(" with location ");
            msg.append(call.location.as_str());
            msg.append(" is now current. TTS initiated.");
            Ok(msg)
        },
        None => Err(
            String::from_str("Failed to process the call. An unexpected server error occurred."),
        ),
    }
}

/// The words that answer a request to skip the current call.
pub fn skip_call_reply(skipped: Option<&Call>) -> (msg: String)
    ensures
        msg@ == match skipped {
            Some(call) => "Call "@ + call.original_id@ + " (Location "@ + call.location@
                + ") skipped successfully."@,
            None => "No current call to skip."@,
        },
{
    match skipped {
        Some(call) => {
            let mut msg = concat("Call ", call.original_id.as_str());
            msg.append(" (Location ");
            msg.append(call.location.as_str());
            msg.append(") skipped successfully.");
            msg
        },
        None => String::from_str("No current call to skip."),
    }
}

/// The words that answer a request to complete the current call.
pub fn complete_call_reply(completed: Option<&Call>) -> (msg: String)
    ensures
        msg@ == match completed {
            Some(call) => "Call "@ + call.original_id@ + " (Location "@ + call.location@
                + ") completed successfully."@,
            None => "No current call to complete."@,
        },
{
    match completed {
        Some(call) => {
            let mut msg = concat("Call ", call.original_id.as_str());
            msg.append(" (Location ");
            msg.append(call.location.as_str());
            msg.append(") completed successfully.");
            msg
        },
        None => String::from_str("No current call to complete."),
    }
}

/// The words that answer a call that was put among the skipped ones, or the
/// failure to put it there. `Ok` is sent as accepted, `Err` as a bad request.
pub fn force_skip_reply(original_id: &str, skipped: Option<&Call>) -> (r: Result<String, String>)
    ensures
        match (skipped, r) {
            (Some(call), Ok(msg)) => msg@ == "Call "@ + call.original_id@ + " with location "@
                + call.location@ + " added directly to skipped list."@,
            (None, Err(msg)) => msg@ == "Failed to add call "@ + original_id@
                + " to skipped list. An unexpected server error occurred."@,
            _ => false,
        },
{
    match skipped {
        Some(call) => {
            let mut msg = concat("Call ", call.original_id.as_str());
            msg.append(" with location ");
            msg.append(call.location.as_str());
            msg.append(" added directly to skipped list.");
            Ok(msg)
        },
        None => {
            let mut msg = concat("Failed to add call ", original_id);
            msg.append(" to skipped list. An unexpected server error occurred.");
            Err(msg)
        },
    }
}

/// The status code that reports a manual trigger that was turned down.
pub open spec fn manual_trigger_status(err: ManualTriggerError) -> u16 {
    match err {
        ManualTriggerError::CooldownActive { .. } => STATUS_TOO_MANY_REQUESTS,
        ManualTriggerError::SlotNotFound(_) => STATUS_NOT_FOUND,
        ManualTriggerError::NoSlotsAvailable => STATUS_SERVICE_UNAVAILABLE,
    }
}

/// The answer to a manual trigger that was turned down: the status code and
/// the body. The body names the seconds to wait where the cooldown is the
/// reason.
pub fn manual_trigger_error_to_response(err: &ManualTriggerError) -> (r: (u16, ErrorResponse))
    ensures
        r.0 == manual_trigger_status(*err),
        r.1.error@ == manual_trigger_error_text(*err),
        r.1.remaining_seconds == match *err {
            ManualTriggerError::CooldownActive { remaining_seconds } => Some(remaining_seconds),
            _ => None,
        },
{
    match err {
        ManualTriggerError::CooldownActive { remaining_seconds } => (
            STATUS_TOO_MANY_REQUESTS,
            ErrorResponse { error: err.message(), remaining_seconds: Some(*remaining_seconds) },
        ),
        ManualTriggerError::SlotNotFound(_) => (
            STATUS_NOT_FOUND,
            ErrorResponse { error: err.message(), remaining_seconds: None },
        ),
        ManualTriggerError::NoSlotsAvailable => (
            STATUS_SERVICE_UNAVAILABLE,
            ErrorResponse { error: err.message(), remaining_seconds: None },
        ),
    }
}

/// The words that answer a manual trigger of the slot `slot_id` that was
/// accepted.
pub fn manual_trigger_reply(slot_id: &str) -> (msg: String)
    ensures
        msg@ == "Announcement '"@ + slot_id@ + "' triggered"@,
{
    let mut msg = concat("Announcement '", slot_id);
    msg.append("' triggered");
    msg
}

/// The answer to a translator call: the status code and the body, for a call
/// that was accepted and for one that was turned down.
pub fn call_translator_reply(outcome: Result<TranslatorCallOutcome, TranslatorCallError>) -> (r:
    Result<(u16, TranslatorSuccessResponse), (u16, TranslatorErrorResponse)>)
    ensures
        match (outcome, r) {
            (Ok(accepted), Ok((code, body))) => {
                &&& code == STATUS_ACCEPTED
                &&& body.message@ == "Translator requested at counter "@ + accepted.location@
                    + "."@
                &&& body.status == accepted.status
            },
            (
                Err(TranslatorCallError::CooldownActive { remaining_seconds }),
                Err((code, body)),
            ) => {
                &&& code == STATUS_TOO_MANY_REQUESTS
                &&& body.error@ == "Translator call is on cooldown. Please wait "@ + decimal_text(
                    remaining_seconds as nat,
                ) + " seconds."@
                &&& body.remaining_seconds == Some(remaining_seconds)
            },
            (Err(TranslatorCallError::MissingLocation), Err((code, body))) => {
                &&& code == STATUS_BAD_REQUEST
                &&& body.error@ == "Translator call requires a numeric counter location."@
                &&& body.remaining_seconds is None
            },
            (Err(TranslatorCallError::InvalidLocation(_)), Err((code, body))) => {
                &&& code == STATUS_BAD_REQUEST
                &&& body.error@ == "Location must contain digits only (e.g., 5, 12)."@
                &&& body.remaining_seconds is None
            },
            _ => false,
        },
{
    match outcome {
        Ok(accepted) => {
            let mut message = concat("Translator requested at counter ", accepted.location.as_str());
            message.append(".");
            Ok((STATUS_ACCEPTED, TranslatorSuccessResponse { message, status: accepted.status }))
        },
        Err(TranslatorCallError::CooldownActive { remaining_seconds }) => {
            let mut error = concat(
                "Translator call is on cooldown. Please wait ",
                decimal_string(remaining_seconds as u128).as_str(),
            );
            error.append(" seconds.");
            Err(
                (
                    STATUS_TOO_MANY_REQUESTS,
                    TranslatorErrorResponse { error, remaining_seconds: Some(remaining_seconds) },
                ),
            )
        },
        Err(TranslatorCallError::MissingLocation) => Err(
            (
                STATUS_BAD_REQUEST,
                TranslatorErrorResponse {
                    error: String::from_str("Translator call requires a numeric counter location."),
                    remaining_seconds: None,
                },
            ),
        ),
        Err(TranslatorCallError::InvalidLocation(_)) => Err(
            (
                STATUS_BAD_REQUEST,
                TranslatorErrorResponse {
                    error: String::from_str("Location must contain digits only (e.g., 5, 12)."),
                    remaining_seconds: None,
                },
            ),
        ),
    }
}

} // verus!
