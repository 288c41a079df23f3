use queue_calling_system::config::AppConfig;
use queue_calling_system::queue::Timestamp;
use queue_calling_system::service::{QueueError, QueueService};
use queue_calling_system::tts::TTSManager;
use queue_calling_system::AppEvent;

fn config_with(languages: &str) -> AppConfig {
    AppConfig {
        server_address: "127.0.0.1".to_string(),
        server_port: 3000,
        max_history_size: 5,
        max_skipped_history_size: 5,
        serve_dir_path: String::new(),
        announcements_audio_sub_path: String::new(),
        banners_sub_path: String::new(),
        banner_rotation_interval_seconds: 1,
        announcement_auto_cycle_interval_seconds: 1,
        announcement_manual_trigger_cooldown_seconds: 1,
        gtts_cache_base_path: String::new(),
        tts_cache_maximum_files: 10,
        tts_external_service_timeout_seconds: 5,
        tts_supported_languages: languages.to_string(),
        sse_keep_alive_interval_seconds: 15,
        sse_event_buffer_size: 10,
        tts_cache_web_path: "/tts".to_string(),
    }
}

fn test_services(languages: &str) -> (QueueService, TTSManager) {
    let config = config_with(languages);
    (QueueService::new(config.clone()), TTSManager::new(config))
}

const NOW: Timestamp = Timestamp { secs: 1_700_000_000, nanos: 0 };

#[test]
fn add_call_broadcasts_event() {
    let (mut service, tts) = test_services("th:Thai,en-GB:British English");
    let change = service.add_call_at(&tts, "A1", "1", NOW).unwrap();
    // The event to send is the queue update.
    match change.update {
        AppEvent::QueueUpdate(state) => {
            assert_eq!(state.current_call.unwrap().original_id, "A1");
        }
        other => panic!("unexpected event: {:?}", other),
    }
}

#[test]
fn added_call_asks_for_speech_in_the_first_language() {
    let (mut service, tts) = test_services("th:Thai,en-GB:British English");
    let change = service.add_call_at(&tts, "A1", "1", NOW).unwrap();
    let call = change.call.unwrap();
    assert_eq!(call.id, "A01");
    let request = change.synthesis.unwrap();
    assert_eq!(request.call_id, "A01");
    assert_eq!(request.location, "1");
    assert_eq!(request.language, "th");
    assert_eq!(request.text_parts, vec![" A01,  1".to_string()]);
}

#[test]
fn no_speech_is_asked_for_without_a_usable_language() {
    // No language at all.
    let (mut service, tts) = test_services("");
    assert!(service.add_call_at(&tts, "A1", "1", NOW).unwrap().synthesis.is_none());
    // The first language is written `en-uk` in the ordered list, and the map
    // of supported languages knows it as `en-GB`: the request is dropped.
    let (mut service, tts) = test_services("en-GB:British English,th:Thai");
    assert!(service.add_call_at(&tts, "A1", "1", NOW).unwrap().synthesis.is_none());
}

#[test]
fn skipping_and_completing_tell_the_displays() {
    let (mut service, tts) = test_services("th");
    service.add_call_at(&tts, "A1", "1", NOW).unwrap();
    let change = service.skip_current_call_at(NOW);
    assert_eq!(change.call.unwrap().id, "A01");
    assert!(change.synthesis.is_none());
    assert_eq!(change.update, AppEvent::QueueUpdate(service.snapshot()));
    assert_eq!(service.snapshot().skipped_history.len(), 1);
    let change = service.complete_current_call_at(NOW);
    assert!(change.call.is_none());
    service.add_call_at(&tts, "B2", "2", NOW).unwrap();
    let change = service.complete_current_call_at(NOW);
    assert_eq!(change.call.unwrap().id, "B02");
    assert_eq!(service.snapshot().completed_history.len(), 1);
    let change = service.force_skip_call_at("C3", "3", NOW).unwrap();
    assert_eq!(change.call.unwrap().id, "C03");
    assert!(change.synthesis.is_none());
    assert_eq!(service.snapshot().skipped_history.len(), 2);
    assert_eq!(service.broadcast_queue_update(), AppEvent::QueueUpdate(service.snapshot()));
}

#[test]
fn queue_error_in_words() {
    assert_eq!(
        QueueError::InconsistentState("add_call").message(),
        "Queue state became inconsistent while performing 'add_call'."
    );
}
