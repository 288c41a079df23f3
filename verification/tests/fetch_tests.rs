use queue_calling_system::fetch::{
    fetch_tts_with_retry, is_success_status, retry_delay_ms, FetchOutcome, FetchStep,
    MAX_TTS_RETRY_ATTEMPTS, RETRY_BASE_DELAY_MS,
};

#[test]
fn delays_double_from_the_base() {
    assert_eq!(RETRY_BASE_DELAY_MS, 200);
    assert_eq!(MAX_TTS_RETRY_ATTEMPTS, 5);
    assert_eq!(retry_delay_ms(1), 200);
    assert_eq!(retry_delay_ms(2), 400);
    assert_eq!(retry_delay_ms(3), 800);
    assert_eq!(retry_delay_ms(4), 1600);
    assert_eq!(retry_delay_ms(5), 3200);
}

#[test]
fn success_hands_the_bytes_on() {
    let bytes = vec![0u8, 255, 73, 68, 51];
    for attempt in [1u8, 3, 5, 9] {
        let step = fetch_tts_with_retry(FetchOutcome::Success(bytes.clone()), attempt, 0, 1, "th");
        assert_eq!(step, FetchStep::Done(bytes.clone()));
    }
}

#[test]
fn failure_is_retried_after_the_delay() {
    let outcomes = [
        FetchOutcome::TransportError("connection refused".to_string()),
        FetchOutcome::BadStatus { status: "503 Service Unavailable".to_string(), body: None },
        FetchOutcome::BodyReadError("truncated".to_string()),
    ];
    for outcome in outcomes {
        let mut delay = 200u64;
        for attempt in 1..5u8 {
            let step = fetch_tts_with_retry(outcome.clone(), attempt, 2, 3, "en-uk");
            assert_eq!(step, FetchStep::Retry { delay_ms: delay, next_attempt: attempt + 1 });
            delay *= 2;
        }
    }
}

#[test]
fn last_failure_gives_up_with_a_message_that_names_the_chunk() {
    let step = fetch_tts_with_retry(
        FetchOutcome::TransportError("connection refused".to_string()),
        5,
        1,
        3,
        "en-uk",
    );
    assert_eq!(
        step,
        FetchStep::GiveUp(
            "HTTP request to TTS part 2/3 (lang en-uk) failed on attempt 5: connection refused"
                .to_string()
        )
    );
    let step = fetch_tts_with_retry(
        FetchOutcome::BadStatus {
            status: "429 Too Many Requests".to_string(),
            body: Some("slow down".to_string()),
        },
        5,
        0,
        12,
        "th",
    );
    assert_eq!(
        step,
        FetchStep::GiveUp(
            "TTS part 1/12 (lang th) request failed on attempt 5: Status 429 Too Many Requests, Body: slow down"
                .to_string()
        )
    );
    let step = fetch_tts_with_retry(
        FetchOutcome::BadStatus { status: "500 Internal Server Error".to_string(), body: None },
        6,
        0,
        1,
        "th",
    );
    assert_eq!(
        step,
        FetchStep::GiveUp(
            "TTS part 1/1 (lang th) request failed on attempt 6: Status 500 Internal Server Error, Body: Could not read error body"
                .to_string()
        )
    );
    let step =
        fetch_tts_with_retry(FetchOutcome::BodyReadError("eof".to_string()), 5, 9, 10, "fr");
    assert_eq!(
        step,
        FetchStep::GiveUp(
            "Failed to get bytes from TTS part 10/10 (lang fr) on attempt 5: eof".to_string()
        )
    );
}

#[test]
fn chunk_that_fails_throughout_is_asked_for_five_times() {
    let mut attempt = 1u8;
    let mut waited = Vec::new();
    let message = loop {
        let outcome = FetchOutcome::TransportError("down".to_string());
        match fetch_tts_with_retry(outcome, attempt, 0, 1, "th") {
            FetchStep::Retry { delay_ms, next_attempt } => {
                waited.push(delay_ms);
                attempt = next_attempt;
            }
            FetchStep::GiveUp(message) => break message,
            FetchStep::Done(_) => unreachable!(),
        }
    };
    assert_eq!(attempt, 5);
    assert_eq!(waited, vec![200, 400, 800, 1600]);
    assert_eq!(message, "HTTP request to TTS part 1/1 (lang th) failed on attempt 5: down");
}

#[test]
fn success_codes_are_the_two_hundreds() {
    assert!(is_success_status(200));
    assert!(is_success_status(204));
    assert!(is_success_status(299));
    assert!(!is_success_status(199));
    assert!(!is_success_status(300));
    assert!(!is_success_status(404));
    assert!(!is_success_status(0));
}
