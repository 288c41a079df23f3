use queue_calling_system::announcements::ManualTriggerError;
use queue_calling_system::api::{
    call_translator_reply, check_call_request, complete_call_reply, force_skip_reply,
    manual_trigger_error_to_response, manual_trigger_reply, queue_call_reply, skip_call_reply,
    validate_identifier, validate_location, AddCallRequest, CallTranslatorRequest, ErrorResponse,
    ForceSkipRequest, TranslatorErrorResponse, TranslatorSuccessResponse, TriggerTTSRequest,
};
use queue_calling_system::health::check;
use queue_calling_system::queue::{Call, Timestamp};
use queue_calling_system::sse::SSEManager;
use queue_calling_system::translator::{
    TranslatorCallError, TranslatorCallOutcome, TranslatorStatus,
};
use queue_calling_system::AppEvent;

fn call(id: &str, original_id: &str, location: &str) -> Call {
    Call {
        id: id.to_string(),
        original_id: original_id.to_string(),
        location: location.to_string(),
        timestamp: Timestamp { secs: 0, nanos: 0 },
    }
}

#[test]
fn identifiers_are_a_capital_letter_and_digits() {
    for good in ["A1", "Z99", "B123", "Q0000000000"] {
        assert_eq!(validate_identifier(good), Ok(()));
    }
    for bad in ["", "A", "1", "a1", "AB1", "A1b", "A 1", " A1", "A1 ", "A1\n", "\u{00c9}1", "A\u{0661}"] {
        assert_eq!(
            validate_identifier(bad),
            Err(format!(
                "Invalid Identifier format. Must be an uppercase letter followed by digits (e.g., A1, Z99). Received: {}",
                bad
            ))
        );
    }
}

#[test]
fn locations_are_digits() {
    for good in ["5", "10", "007"] {
        assert_eq!(validate_location(good), Ok(()));
    }
    for bad in ["", "a", "1a", " 1", "1 ", "-1", "1.5", "1\n", "\u{0661}"] {
        assert_eq!(
            validate_location(bad),
            Err(format!(
                "Invalid Location format. Must be digits only (e.g., 5, 10). Received: {}",
                bad
            ))
        );
    }
}

#[test]
fn validators_agree_with_the_patterns() {
    let identifier = regex::Regex::new(r"^[A-Z][0-9]+$").unwrap();
    let location = regex::Regex::new(r"^[0-9]+$").unwrap();
    let pieces = ["", "A", "Z", "a", "0", "9", "12", " ", "\n", "B7", "\u{0661}", "\u{00c9}", "[", "@"];
    for first in pieces {
        for second in pieces {
            for third in pieces {
                let text = format!("{}{}{}", first, second, third);
                assert_eq!(validate_identifier(&text).is_ok(), identifier.is_match(&text), "{:?}", text);
                assert_eq!(validate_location(&text).is_ok(), location.is_match(&text), "{:?}", text);
            }
        }
    }
}

#[test]
fn requests_are_checked_identifier_first() {
    let request = AddCallRequest { original_id: "A1".to_string(), location: "4".to_string() };
    assert_eq!(check_call_request(&request.original_id, &request.location), Ok(()));
    let request = ForceSkipRequest { original_id: "a1".to_string(), location: "x".to_string() };
    assert_eq!(
        check_call_request(&request.original_id, &request.location),
        Err("Invalid Identifier format. Must be an uppercase letter followed by digits (e.g., A1, Z99). Received: a1".to_string())
    );
    assert_eq!(
        check_call_request("A1", "x"),
        Err("Invalid Location format. Must be digits only (e.g., 5, 10). Received: x".to_string())
    );
    let request = TriggerTTSRequest { id: "A01".to_string(), location: "4".to_string(), lang: "th".to_string() };
    assert_eq!(request.clone(), request);
    let request = CallTranslatorRequest { location: "4".to_string() };
    assert_eq!(request.location, "4");
}

#[test]
fn queue_replies_name_the_call() {
    let a1 = call("A01", "A1", "4");
    assert_eq!(
        queue_call_reply(Some(&a1)),
        Ok("Call A1 with location 4 is now current. TTS initiated.".to_string())
    );
    assert_eq!(
        queue_call_reply(None),
        Err("Failed to process the call. An unexpected server error occurred.".to_string())
    );
    assert_eq!(skip_call_reply(Some(&a1)), "Call A1 (Location 4) skipped successfully.");
    assert_eq!(skip_call_reply(None), "No current call to skip.");
    assert_eq!(complete_call_reply(Some(&a1)), "Call A1 (Location 4) completed successfully.");
    assert_eq!(complete_call_reply(None), "No current call to complete.");
    assert_eq!(
        force_skip_reply("A1", Some(&a1)),
        Ok("Call A1 with location 4 added directly to skipped list.".to_string())
    );
    assert_eq!(
        force_skip_reply("A1", None),
        Err("Failed to add call A1 to skipped list. An unexpected server error occurred.".to_string())
    );
}

#[test]
fn manual_trigger_errors_have_their_status_codes() {
    assert_eq!(
        manual_trigger_error_to_response(&ManualTriggerError::CooldownActive { remaining_seconds: 3 }),
        (
            429,
            ErrorResponse {
                error: "Manual trigger is on cooldown (3 seconds remaining)".to_string(),
                remaining_seconds: Some(3)
            }
        )
    );
    assert_eq!(
        manual_trigger_error_to_response(&ManualTriggerError::SlotNotFound("lunch".to_string())),
        (
            404,
            ErrorResponse {
                error: "Announcement slot 'lunch' was not found".to_string(),
                remaining_seconds: None
            }
        )
    );
    assert_eq!(
        manual_trigger_error_to_response(&ManualTriggerError::NoSlotsAvailable),
        (
            503,
            ErrorResponse {
                error: "No announcement slots are available to trigger".to_string(),
                remaining_seconds: None
            }
        )
    );
    assert_eq!(manual_trigger_reply("lunch"), "Announcement 'lunch' triggered");
}

#[test]
fn translator_replies_have_their_status_codes() {
    let status =
        TranslatorStatus { cooldown_seconds: 5, cooldown_remaining_seconds: 5, cooldown_active: true };
    assert_eq!(
        call_translator_reply(Ok(TranslatorCallOutcome { location: "12".to_string(), status })),
        Ok((
            202,
            TranslatorSuccessResponse {
                message: "Translator requested at counter 12.".to_string(),
                status
            }
        ))
    );
    assert_eq!(
        call_translator_reply(Err(TranslatorCallError::CooldownActive { remaining_seconds: 4 })),
        Err((
            429,
            TranslatorErrorResponse {
                error: "Translator call is on cooldown. Please wait 4 seconds.".to_string(),
                remaining_seconds: Some(4)
            }
        ))
    );
    assert_eq!(
        call_translator_reply(Err(TranslatorCallError::MissingLocation)),
        Err((
            400,
            TranslatorErrorResponse {
                error: "Translator call requires a numeric counter location.".to_string(),
                remaining_seconds: None
            }
        ))
    );
    assert_eq!(
        call_translator_reply(Err(TranslatorCallError::InvalidLocation("x".to_string()))),
        Err((
            400,
            TranslatorErrorResponse {
                error: "Location must contain digits only (e.g., 5, 12).".to_string(),
                remaining_seconds: None
            }
        ))
    );
}

#[test]
fn events_go_out_under_their_names() {
    let _manager = SSEManager::new();
    let complete = AppEvent::TTSComplete {
        id: "A01".to_string(),
        location: "4".to_string(),
        lang: "th".to_string(),
        audio_urls: vec!["/tts_cache/multi/A01-4.mp3".to_string()],
    };
    assert_eq!(SSEManager::event_name(&complete), "tts_complete");
    let translator = AppEvent::TranslatorCall {
        location: "4".to_string(),
        audio_urls: Vec::new(),
        cooldown_seconds: 5,
        cooldown_remaining_seconds: 5,
    };
    assert_eq!(SSEManager::event_name(&translator), "translator_call");
    let queue = AppEvent::QueueUpdate(queue_calling_system::queue::QueueManager::new(1, 1).snapshot());
    assert_eq!(SSEManager::event_name(&queue), "queue_update");
}

#[test]
fn health_probe_says_ok() {
    let (code, body) = check();
    assert_eq!(code, 200);
    assert_eq!(body.status, "ok");
}
