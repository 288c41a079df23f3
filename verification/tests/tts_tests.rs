use queue_calling_system::config::AppConfig;
use queue_calling_system::identity::IdentitySet;
use queue_calling_system::languages::LanguageMap;
use queue_calling_system::online::{
    conclude_online, pruning_is_due, CacheWriteFailure, JobScope, OnlineJob, OnlineOutcome,
};
use queue_calling_system::task::{SynthesisTask, TaskAction, TaskEvent};
use queue_calling_system::tts::{
    build_speak_text, build_stem_audio_urls_for_all_languages, fallback_to_stem_audio,
    static_build_google_tts_url, TTSManager, MAX_CHARS_PER_CHUNK, ONLINE_TTS_TIMEOUT_SECONDS,
};
use queue_calling_system::AppEvent;

fn config_with(languages: &str) -> AppConfig {
    AppConfig {
        server_address: "127.0.0.1".to_string(),
        server_port: 3000,
        max_history_size: 5,
        max_skipped_history_size: 5,
        serve_dir_path: "/srv/public".to_string(),
        announcements_audio_sub_path: "media/announcements".to_string(),
        banners_sub_path: "media/banners".to_string(),
        banner_rotation_interval_seconds: 10,
        announcement_auto_cycle_interval_seconds: 1200,
        announcement_manual_trigger_cooldown_seconds: 5,
        gtts_cache_base_path: "/tmp/gtts_audio_cache".to_string(),
        tts_cache_maximum_files: 500,
        tts_external_service_timeout_seconds: 30,
        tts_supported_languages: languages.to_string(),
        sse_keep_alive_interval_seconds: 15,
        sse_event_buffer_size: 200,
        tts_cache_web_path: "/tts_cache".to_string(),
    }
}

fn usual_config() -> AppConfig {
    config_with("th:Thai,en-GB:British English")
}

fn accepted_task(config: &AppConfig, id: &str, location: &str, lang: &str) -> SynthesisTask {
    let manager = TTSManager::new(config.clone());
    let request = manager
        .trigger_tts_generation(id.to_string(), location.to_string(), lang.to_string())
        .unwrap();
    SynthesisTask::new(request)
}

fn completion(id: &str, location: &str, lang: &str, urls: &[&str]) -> TaskAction {
    TaskAction::Publish(AppEvent::TTSComplete {
        id: id.to_string(),
        location: location.to_string(),
        lang: lang.to_string(),
        audio_urls: urls.iter().map(|u| u.to_string()).collect(),
    })
}

#[test]
fn speak_text_depends_on_the_language() {
    assert_eq!(build_speak_text("A01", "4", "en-uk"), "Number A01, to counter 4");
    assert_eq!(build_speak_text("A01", "4", "EN"), "Number A01, to counter 4");
    assert_eq!(build_speak_text("A01", "4", "fr"), "Number A01, to counter 4");
    assert_eq!(build_speak_text("A01", "4", "th"), " A01,  4");
    assert_eq!(build_speak_text("A01", "4", "TH"), " A01,  4");
}

#[test]
fn synthesis_url_encodes_the_text() {
    assert_eq!(
        static_build_google_tts_url("Number A01, to counter 4", "en-uk", 0, 1),
        "http://translate.google.com/translate_tts?ie=UTF-8&q=Number%20A01%2C%20to%20counter%204&tl=en-uk&total=1&idx=0&textlen=24&client=tw-ob&prev=input&ttsspeed=1"
    );
}

#[test]
fn synthesis_url_counts_the_text_in_bytes() {
    // Two Thai characters of three bytes each, and a tilde, which stands for
    // itself.
    assert_eq!(
        static_build_google_tts_url("\u{0e01}\u{0e02}~", "th", 2, 10),
        "http://translate.google.com/translate_tts?ie=UTF-8&q=%E0%B8%81%E0%B8%82~&tl=th&total=10&idx=2&textlen=7&client=tw-ob&prev=input&ttsspeed=1"
    );
    assert_eq!(
        static_build_google_tts_url("", "th", 0, 0),
        "http://translate.google.com/translate_tts?ie=UTF-8&q=&tl=th&total=0&idx=0&textlen=0&client=tw-ob&prev=input&ttsspeed=1"
    );
}

#[test]
fn manager_reads_the_supported_languages() {
    let manager = TTSManager::new(config_with("th:Thai, en-GB:British English ,es,,bad:one:two, :x"));
    let languages = manager.get_supported_languages();
    assert!(languages.contains_key("th"));
    assert_eq!(languages.get("th"), Some(&"Thai".to_string()));
    assert_eq!(languages.get("en-GB"), Some(&"British English".to_string()));
    assert_eq!(languages.get("es"), Some(&"es".to_string()));
    assert_eq!(languages.get(""), Some(&"x".to_string()));
    assert!(!languages.contains_key("en-uk"));
    assert!(!languages.contains_key("bad"));
    assert_eq!(languages.entries().len(), 4);
    assert_eq!(manager.last_identities().len(), 0);
}

#[test]
fn language_map_keeps_the_later_name() {
    let mut map = LanguageMap::parse("th:Thai,en:English,th:Siamese");
    assert_eq!(map.get("th"), Some(&"Siamese".to_string()));
    assert_eq!(map.entries().len(), 2);
    map.insert("fr".to_string(), "French".to_string());
    map.insert("en".to_string(), "Anglais".to_string());
    assert_eq!(
        map.entries(),
        vec![
            ("th".to_string(), "Siamese".to_string()),
            ("en".to_string(), "Anglais".to_string()),
            ("fr".to_string(), "French".to_string()),
        ]
    );
    assert_eq!(map.get("de"), None);
    assert_eq!(map.clone().entries(), map.entries());
    assert!(LanguageMap::new().entries().is_empty());
    assert!(LanguageMap::parse("").entries().is_empty());
}

#[test]
fn unsupported_language_is_turned_down() {
    let manager = TTSManager::new(usual_config());
    let err = manager
        .trigger_tts_generation("A01".to_string(), "4".to_string(), "de".to_string())
        .unwrap_err();
    assert_eq!(err, "Unsupported language for TTS: de");
    // The map knows the code as it is configured, not as it is normalized.
    let err = manager
        .trigger_tts_generation("A01".to_string(), "4".to_string(), "en-uk".to_string())
        .unwrap_err();
    assert_eq!(err, "Unsupported language for TTS: en-uk");
}

#[test]
fn supported_language_is_accepted_with_its_chunks() {
    let manager = TTSManager::new(usual_config());
    let request = manager
        .trigger_tts_generation("A01".to_string(), "4".to_string(), "en-GB".to_string())
        .unwrap();
    assert_eq!(request.call_id, "A01");
    assert_eq!(request.location, "4");
    assert_eq!(request.language, "en-GB");
    assert_eq!(request.text_parts, vec!["Number A01, to counter 4".to_string()]);
    assert_eq!(
        manager.split_long_text("ab cd", 3).unwrap(),
        vec!["ab ".to_string(), "cd".to_string()]
    );
}

#[test]
fn announcement_that_cannot_be_cut_is_accepted_and_ends_in_the_fallback() {
    let config = usual_config();
    let manager = TTSManager::new(config.clone());
    let long_id = "X".repeat(MAX_CHARS_PER_CHUNK + 50);
    // An unsupported language is the only reason to turn a request down.
    let request = manager
        .trigger_tts_generation(long_id.clone(), "4".to_string(), "th".to_string())
        .unwrap();
    assert_eq!(request.call_id, long_id);
    assert_eq!(request.language, "th");
    assert!(request.text_parts.is_empty());
    // The work on it finds no file, cannot plan the run, and falls back.
    let mut task = SynthesisTask::new(request);
    task.perform_tts_task_with_fallback(&config, TaskEvent::Started);
    task.perform_tts_task_with_fallback(&config, TaskEvent::Probed(false));
    let action = task.perform_tts_task_with_fallback(&config, TaskEvent::Probed(false));
    let languages = match action {
        TaskAction::RunOnline { languages, .. } => languages,
        other => panic!("unexpected action: {:?}", other),
    };
    let reason =
        OnlineJob::perform_online_multi_language_tts_generation(&config, &long_id, "4", &languages)
            .unwrap_err();
    let action = task.perform_tts_task_with_fallback(
        &config,
        TaskEvent::OnlineEnded(OnlineOutcome::Failed { reason }),
    );
    match action {
        TaskAction::Publish(AppEvent::TTSComplete { id, audio_urls, .. }) => {
            assert_eq!(id, long_id);
            assert_eq!(audio_urls[0], "/media/audio_stems/th/phrase_number.mp3");
            assert_eq!(audio_urls[1], "/media/audio_stems/th/fallback_xxxxxxxxxx".to_string()
                + &"x".repeat(MAX_CHARS_PER_CHUNK + 40)
                + ".mp3");
        }
        other => panic!("unexpected action: {:?}", other),
    }
    assert!(task.is_done());
}

#[test]
fn pregenerated_file_is_played_without_further_ado() {
    let config = usual_config();
    let mut task = accepted_task(&config, "A01", "4", "th");
    assert!(!task.is_done());
    let action = task.perform_tts_task_with_fallback(&config, TaskEvent::Started);
    assert_eq!(
        action,
        TaskAction::Probe("/srv/public/media/audio_cache/multi/A01-4.mp3".to_string())
    );
    let action = task.perform_tts_task_with_fallback(&config, TaskEvent::Probed(true));
    assert_eq!(action, completion("A01", "4", "th", &["/media/audio_cache/multi/A01-4.mp3"]));
    assert!(task.is_done());
}

#[test]
fn cached_audio_is_played_without_a_network_call() {
    let config = usual_config();
    let mut task = accepted_task(&config, "A01", "4", "th");
    let mut actions = Vec::new();
    actions.push(task.perform_tts_task_with_fallback(&config, TaskEvent::Started));
    actions.push(task.perform_tts_task_with_fallback(&config, TaskEvent::Probed(false)));
    assert_eq!(
        actions[1],
        TaskAction::Probe("/tmp/gtts_audio_cache/multi/A01-4.mp3".to_string())
    );
    actions.push(task.perform_tts_task_with_fallback(&config, TaskEvent::Probed(true)));
    assert_eq!(actions[2], completion("A01", "4", "th", &["/tts_cache/multi/A01-4.mp3"]));
    match &actions[2] {
        TaskAction::Publish(AppEvent::TTSComplete { audio_urls, .. }) => {
            assert_eq!(audio_urls.len(), 1)
        }
        other => panic!("unexpected action: {:?}", other),
    }
    // The synthesis service was never asked for.
    assert!(actions.iter().all(|a| !matches!(a, TaskAction::RunOnline { .. })));
    assert!(task.is_done());
    // Whatever is reported now, nothing more happens.
    for event in [
        TaskEvent::Started,
        TaskEvent::Probed(false),
        TaskEvent::OnlineEnded(OnlineOutcome::TimedOut),
    ] {
        assert_eq!(task.perform_tts_task_with_fallback(&config, event), TaskAction::Ignore);
    }
}

#[test]
fn online_success_is_published_with_its_url() {
    let config = usual_config();
    let mut task = accepted_task(&config, "A01", "4", "th");
    task.perform_tts_task_with_fallback(&config, TaskEvent::Started);
    task.perform_tts_task_with_fallback(&config, TaskEvent::Probed(false));
    let action = task.perform_tts_task_with_fallback(&config, TaskEvent::Probed(false));
    assert_eq!(ONLINE_TTS_TIMEOUT_SECONDS, 5);
    assert_eq!(
        action,
        TaskAction::RunOnline {
            languages: vec!["th".to_string(), "en-uk".to_string()],
            timeout_seconds: 5
        }
    );
    let action = task.perform_tts_task_with_fallback(
        &config,
        TaskEvent::OnlineEnded(OnlineOutcome::Succeeded {
            audio_url: "/tts_cache/multi/A01-4.mp3".to_string(),
        }),
    );
    assert_eq!(action, completion("A01", "4", "th", &["/tts_cache/multi/A01-4.mp3"]));
    assert!(task.is_done());
}

#[test]
fn online_failure_falls_back_to_the_stems() {
    let config = usual_config();
    for outcome in [
        OnlineOutcome::Failed {
            reason: "HTTP request to TTS part 1/1 (lang th) failed on attempt 5: down".to_string(),
        },
        OnlineOutcome::TimedOut,
    ] {
        let mut task = accepted_task(&config, "A1", "4", "th");
        task.perform_tts_task_with_fallback(&config, TaskEvent::Started);
        task.perform_tts_task_with_fallback(&config, TaskEvent::Probed(false));
        task.perform_tts_task_with_fallback(&config, TaskEvent::Probed(false));
        let action = task.perform_tts_task_with_fallback(&config, TaskEvent::OnlineEnded(outcome));
        assert_eq!(
            action,
            completion(
                "A1",
                "4",
                "th",
                &[
                    "/media/audio_stems/th/phrase_number.mp3",
                    "/media/audio_stems/th/char_a.mp3",
                    "/media/audio_stems/th/number_001.mp3",
                    "/media/audio_stems/th/phrase_to_counter.mp3",
                    "/media/audio_stems/th/number_004.mp3",
                    "/media/audio_stems/en/phrase_number.mp3",
                    "/media/audio_stems/en/char_a.mp3",
                    "/media/audio_stems/en/number_001.mp3",
                    "/media/audio_stems/en/phrase_to_counter.mp3",
                    "/media/audio_stems/en/number_004.mp3",
                ]
            )
        );
        assert!(task.is_done());
    }
}

#[test]
fn reports_out_of_turn_are_ignored() {
    let config = usual_config();
    let mut task = accepted_task(&config, "A01", "4", "th");
    assert_eq!(
        task.perform_tts_task_with_fallback(&config, TaskEvent::Probed(true)),
        TaskAction::Ignore
    );
    assert_eq!(
        task.perform_tts_task_with_fallback(&config, TaskEvent::OnlineEnded(OnlineOutcome::TimedOut)),
        TaskAction::Ignore
    );
    assert!(matches!(
        task.perform_tts_task_with_fallback(&config, TaskEvent::Started),
        TaskAction::Probe(_)
    ));
    assert_eq!(
        task.perform_tts_task_with_fallback(&config, TaskEvent::Started),
        TaskAction::Ignore
    );
}

#[test]
fn without_languages_the_caches_are_still_looked_into() {
    let with_languages = usual_config();
    let without = config_with("");
    // The cache file exists: it is published, languages or not.
    let mut task = accepted_task(&with_languages, "A01", "4", "th");
    task.perform_tts_task_with_fallback(&without, TaskEvent::Started);
    let action = task.perform_tts_task_with_fallback(&without, TaskEvent::Probed(false));
    assert_eq!(
        action,
        TaskAction::Probe("/tmp/gtts_audio_cache/multi/A01-4.mp3".to_string())
    );
    assert!(!task.is_done());
    let action = task.perform_tts_task_with_fallback(&without, TaskEvent::Probed(true));
    assert_eq!(action, completion("A01", "4", "th", &["/tts_cache/multi/A01-4.mp3"]));
    assert!(task.is_done());
}

#[test]
fn without_languages_there_is_nothing_to_publish() {
    let with_languages = usual_config();
    let without = config_with("");
    let mut task = accepted_task(&with_languages, "A01", "4", "th");
    task.perform_tts_task_with_fallback(&without, TaskEvent::Started);
    task.perform_tts_task_with_fallback(&without, TaskEvent::Probed(false));
    // Neither file exists and no language is configured: the synthesis
    // service is not asked, and the fallback has nothing to say.
    let action = task.perform_tts_task_with_fallback(&without, TaskEvent::Probed(false));
    assert_eq!(action, TaskAction::Stop);
    assert!(task.is_done());
    assert_eq!(fallback_to_stem_audio(&without, "A01", "4", "th"), None);
    assert!(build_stem_audio_urls_for_all_languages(&without, "A01", "4").is_empty());
    assert_eq!(build_stem_audio_urls_for_all_languages(&with_languages, "A01", "4").len(), 12);
}

#[test]
fn file_outside_the_serving_directory_has_no_url() {
    let mut config = usual_config();
    let mut task = accepted_task(&config, "A01", "4", "th");
    task.perform_tts_task_with_fallback(&config, TaskEvent::Started);
    task.perform_tts_task_with_fallback(&config, TaskEvent::Probed(false));
    // The cache path is relative now, the cache root is not: no URL.
    config.gtts_cache_base_path = "relative/cache".to_string();
    let probe = task.perform_tts_task_with_fallback(&config, TaskEvent::Started);
    assert_eq!(probe, TaskAction::Ignore);
    let outcome = conclude_online(
        &config,
        &JobScope::AllLanguages,
        "A01",
        "/tmp/gtts_audio_cache/multi",
        "/tmp/gtts_audio_cache/multi/A01-4.mp3",
        Ok(()),
    );
    assert_eq!(
        outcome,
        OnlineOutcome::Failed {
            reason: "Failed to get web-accessible URL for multi-language TTS audio: \"/tmp/gtts_audio_cache/multi/A01-4.mp3\"".to_string()
        }
    );
}

#[test]
fn online_job_fetches_language_by_language() {
    let config = usual_config();
    let languages = vec!["th".to_string(), "en-uk".to_string()];
    let mut job =
        OnlineJob::perform_online_multi_language_tts_generation(&config, "A01", "4", &languages)
            .unwrap();
    let history = IdentitySet::new();
    let mut seen = Vec::new();
    let mut picked = Vec::new();
    let mut part = 0u8;
    while let Some(request) = job.next_request() {
        seen.push((request.language.clone(), request.index, request.total, request.text.clone()));
        assert_eq!(
            request.url,
            static_build_google_tts_url(&request.text, &request.language, request.index, request.total)
        );
        picked.push(job.identity_for_next(&history));
        part += 1;
        job = job.on_chunk(Ok(vec![part, part, part])).unwrap();
    }
    assert_eq!(
        seen,
        vec![
            ("th".to_string(), 0, 1, " A01,  4".to_string()),
            ("en-uk".to_string(), 0, 1, "Number A01, to counter 4".to_string()),
        ]
    );
    let finished = job.finish().unwrap();
    assert_eq!(finished.audio, vec![1, 1, 1, 2, 2, 2]);
    assert_eq!(finished.scope, JobScope::AllLanguages);
    assert_eq!(finished.call_id, "A01");
    assert_eq!(finished.cache_dir, "/tmp/gtts_audio_cache/multi");
    assert_eq!(finished.cache_file_path, "/tmp/gtts_audio_cache/multi/A01-4.mp3");
    assert_eq!(finished.uas_this_task.len(), 2);
    for identity in &picked {
        assert!(finished.uas_this_task.contains(identity));
    }
    let mut manager = TTSManager::new(config.clone());
    manager.remember_identities(finished.uas_this_task);
    assert_eq!(manager.last_identities().len(), 2);
    let outcome = conclude_online(
        &config,
        &finished.scope,
        &finished.call_id,
        &finished.cache_dir,
        &finished.cache_file_path,
        Ok(()),
    );
    assert_eq!(
        outcome,
        OnlineOutcome::Succeeded { audio_url: "/tts_cache/multi/A01-4.mp3".to_string() }
    );
}

#[test]
fn online_job_cuts_long_announcements() {
    let config = usual_config();
    let location = "9 ".repeat(150);
    let languages = vec!["en".to_string()];
    let job =
        OnlineJob::perform_online_multi_language_tts_generation(&config, "A01", &location, &languages)
            .unwrap();
    let mut job = job;
    let mut texts = Vec::new();
    let mut count = 0;
    while let Some(request) = job.next_request() {
        assert_eq!(request.index, count);
        assert_eq!(request.language, "en");
        assert!(request.text.chars().count() <= 200);
        texts.push(request.text.clone());
        let total = request.total;
        job = job.on_chunk(Ok(vec![7])).unwrap();
        count += 1;
        assert!(count <= total);
    }
    assert_eq!(count, 2);
    assert_eq!(texts.concat(), format!("Number A01, to counter {}", location));
}

#[test]
fn online_job_is_not_planned_for_an_announcement_that_cannot_be_cut() {
    let config = usual_config();
    let long_id = "X".repeat(300);
    let languages = vec!["th".to_string(), "en".to_string()];
    let err =
        OnlineJob::perform_online_multi_language_tts_generation(&config, &long_id, "4", &languages)
            .unwrap_err();
    assert_eq!(
        err,
        format!("The word is too long to split into a short text: '{}...'", "X".repeat(200))
    );
}

#[test]
fn online_job_without_audio_fails() {
    let config = usual_config();
    let job = OnlineJob::perform_online_multi_language_tts_generation(&config, "A01", "4", &Vec::new())
        .unwrap();
    assert!(job.next_request().is_none());
    assert_eq!(job.finish().unwrap_err(), "No audio bytes collected from multi-language TTS");

    let languages = vec!["th".to_string()];
    let job =
        OnlineJob::perform_online_multi_language_tts_generation(&config, "A01", "4", &languages)
            .unwrap();
    let job = job.on_chunk(Ok(Vec::new())).unwrap();
    assert!(job.next_request().is_none());
    assert_eq!(job.finish().unwrap_err(), "No audio bytes collected from multi-language TTS");
}

#[test]
fn chunk_that_is_given_up_ends_the_run() {
    let config = usual_config();
    let languages = vec!["th".to_string(), "en".to_string()];
    let job =
        OnlineJob::perform_online_multi_language_tts_generation(&config, "A01", "4", &languages)
            .unwrap();
    let job = job.on_chunk(Ok(vec![1, 2, 3])).unwrap();
    assert_eq!(job.next_request().unwrap().language, "en");
    // The second chunk is given up: the job is gone, and with it the audio of
    // the first chunk. All that is left is the message.
    let message = job.on_chunk(Err("gave up".to_string())).unwrap_err();
    assert_eq!(message, "gave up");
}

#[test]
fn single_language_job_has_its_own_cache_file_and_messages() {
    let config = usual_config();
    let parts = vec!["Number A01, ".to_string(), "to counter 4".to_string()];
    let mut job =
        OnlineJob::_perform_online_tts_generation(&config, "A01", "4", "en-uk", &parts).unwrap();
    let first = job.next_request().unwrap().clone();
    assert_eq!(first.text, "Number A01, ");
    assert_eq!((first.index, first.total), (0, 2));
    job = job.on_chunk(Ok(Vec::new())).unwrap();
    assert_eq!(job.next_request().unwrap().index, 1);
    job = job.on_chunk(Ok(Vec::new())).unwrap();
    assert_eq!(
        job.finish().unwrap_err(),
        "No audio bytes collected from TTS for call ID 'A01', lang 'en-uk'"
    );

    let job =
        OnlineJob::_perform_online_tts_generation(&config, "A01", "4", "en-uk", &parts).unwrap();
    assert_eq!(
        job.on_chunk(Err("down".to_string())).unwrap_err(),
        "Failed to fetch TTS part 1/2 (lang en-uk) after 5 retries: down"
    );
    let job =
        OnlineJob::_perform_online_tts_generation(&config, "A01", "4", "en-uk", &parts).unwrap();
    let job = job.on_chunk(Ok(vec![1])).unwrap();
    assert_eq!(
        job.on_chunk(Err("down".to_string())).unwrap_err(),
        "Failed to fetch TTS part 2/2 (lang en-uk) after 5 retries: down"
    );
    let job =
        OnlineJob::_perform_online_tts_generation(&config, "A01", "4", "en-uk", &parts).unwrap();
    let job = job.on_chunk(Ok(vec![1])).unwrap();
    let job = job.on_chunk(Ok(vec![2])).unwrap();
    let finished = job.finish().unwrap();
    assert_eq!(finished.audio, vec![1, 2]);
    assert_eq!(finished.scope, JobScope::OneLanguage("en-uk".to_string()));
    assert_eq!(finished.cache_dir, "/tmp/gtts_audio_cache/en-uk");
    assert_eq!(finished.cache_file_path, "/tmp/gtts_audio_cache/en-uk/A01-4.mp3");

    let err = OnlineJob::_perform_online_tts_generation(&config, "A01", "4", "en-uk", &Vec::new())
        .unwrap_err();
    assert_eq!(err, "Tokenization resulted in no text parts for call id 'A01', lang 'en-uk'");
}

#[test]
fn cache_write_failures_end_the_run() {
    let config = usual_config();
    let one = JobScope::OneLanguage("th".to_string());
    let all = JobScope::AllLanguages;
    let dir = "/tmp/gtts_audio_cache/multi";
    let path = "/tmp/gtts_audio_cache/multi/A01-4.mp3";
    assert_eq!(
        conclude_online(&config, &all, "A01", dir, path, Err(CacheWriteFailure::CreateDir("denied".to_string()))),
        OnlineOutcome::Failed {
            reason: "Failed to create TTS cache subdirectory \"/tmp/gtts_audio_cache/multi\": denied".to_string()
        }
    );
    assert_eq!(
        conclude_online(&config, &all, "A01", dir, path, Err(CacheWriteFailure::Write("disk full".to_string()))),
        OnlineOutcome::Failed {
            reason: "Failed to write multi-language TTS audio to cache \"/tmp/gtts_audio_cache/multi/A01-4.mp3\": disk full".to_string()
        }
    );
    assert_eq!(
        conclude_online(&config, &one, "A01", dir, path, Err(CacheWriteFailure::Write("disk full".to_string()))),
        OnlineOutcome::Failed {
            reason: "Failed to write concatenated TTS audio to cache \"/tmp/gtts_audio_cache/multi/A01-4.mp3\" (lang th): disk full".to_string()
        }
    );
    assert_eq!(
        conclude_online(&config, &one, "A01", dir, "elsewhere/A01-4.mp3", Ok(())),
        OnlineOutcome::Failed {
            reason: "Failed to get web-accessible URL for TTS audio (id: A01, lang: th): \"elsewhere/A01-4.mp3\"".to_string()
        }
    );
}

#[test]
fn cache_is_pruned_after_a_write_under_a_ceiling() {
    let mut config = usual_config();
    assert!(pruning_is_due(&config, &Ok(())));
    assert!(!pruning_is_due(&config, &Err(CacheWriteFailure::Write("disk full".to_string()))));
    config.tts_cache_maximum_files = 0;
    assert!(!pruning_is_due(&config, &Ok(())));
}
