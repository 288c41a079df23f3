use queue_calling_system::announcements::{
    file_extension, is_supported_audio_file, is_supported_banner_file, manual_cooldown_remaining,
    manual_trigger_is_broadcast, scan_announcement_slots, scan_banner_files, sort_paths,
    sort_slots, to_web_accessible_path, AnnouncementManager, AnnouncementSlot,
    AnnouncementSlotSummary, ListedDirectory, ListedEntry, ManualTriggerError,
};
use queue_calling_system::config::AppConfig;

const SECOND: u64 = 1_000_000_000;

fn config_with_cooldown(seconds: u64) -> AppConfig {
    AppConfig {
        server_address: "127.0.0.1".to_string(),
        server_port: 3000,
        max_history_size: 5,
        max_skipped_history_size: 5,
        serve_dir_path: "/srv/public".to_string(),
        announcements_audio_sub_path: "media/announcements".to_string(),
        banners_sub_path: "media/banners".to_string(),
        banner_rotation_interval_seconds: 10,
        announcement_auto_cycle_interval_seconds: 1200,
        announcement_manual_trigger_cooldown_seconds: seconds,
        gtts_cache_base_path: "/tmp/gtts_audio_cache".to_string(),
        tts_cache_maximum_files: 500,
        tts_external_service_timeout_seconds: 30,
        tts_supported_languages: "th:Thai,en-GB:British English".to_string(),
        sse_keep_alive_interval_seconds: 15,
        sse_event_buffer_size: 200,
        tts_cache_web_path: "/tts_cache".to_string(),
    }
}

fn entry(path: &str, is_file: bool) -> ListedEntry {
    ListedEntry { path: path.to_string(), is_file }
}

fn slot(id: &str, files: &[&str]) -> AnnouncementSlot {
    AnnouncementSlot { id: id.to_string(), audio_files: files.iter().map(|f| f.to_string()).collect() }
}

fn three_slots() -> Vec<AnnouncementSlot> {
    vec![
        slot("lunch", &["/srv/public/media/announcements/lunch/b.mp3"]),
        slot("closing", &["/srv/public/media/announcements/closing/a.mp3", "/elsewhere/x.mp3"]),
        slot("welcome", &["/srv/public/media/announcements/welcome/w.ogg"]),
    ]
}

#[test]
fn extensions_follow_the_last_dot_of_the_name() {
    assert_eq!(file_extension("/a/b/c.mp3"), Some("mp3".to_string()));
    assert_eq!(file_extension("c.tar.gz"), Some("gz".to_string()));
    assert_eq!(file_extension("/a.b/c"), None);
    assert_eq!(file_extension("/a/.hidden"), None);
    assert_eq!(file_extension("/a/.hidden.wav"), Some("wav".to_string()));
    assert_eq!(file_extension("/a/name."), Some("".to_string()));
    assert_eq!(file_extension("/a/.."), None);
    assert_eq!(file_extension(""), None);
    assert_eq!(file_extension("/"), None);
}

#[test]
fn extensions_agree_with_the_standard_library() {
    for path in ["/a/b/c.mp3", "c.tar.gz", "/a.b/c", "/a/.hidden", "/a/.hidden.wav", "/a/name.", "/a/..", "", "/", "x.MP3", "dir/"] {
        let expected = std::path::Path::new(path)
            .extension()
            .map(|e| e.to_string_lossy().into_owned());
        assert_eq!(file_extension(path), expected, "{:?}", path);
    }
}

#[test]
fn audio_and_banner_formats() {
    for path in ["a.mp3", "a.WAV", "/x/y.Ogg"] {
        assert!(is_supported_audio_file(path));
    }
    for path in ["a.mp4", "a", "a.mp3.txt", ".mp3"] {
        assert!(!is_supported_audio_file(path));
    }
    for path in ["a.jpg", "a.JPEG", "a.png", "a.gif", "a.webp", "a.svg", "a.mp4", "a.webm", "a.ogg", "a.MOV"] {
        assert!(is_supported_banner_file(path));
    }
    for path in ["a.mp3", "a.bmp", "a", "jpg"] {
        assert!(!is_supported_banner_file(path));
    }
}

#[test]
fn paths_are_sorted_like_strings() {
    let sorted = sort_paths(vec![
        "b.mp3".to_string(),
        "a.mp3".to_string(),
        "B.mp3".to_string(),
        "a.mp3".to_string(),
        "".to_string(),
        "ab".to_string(),
        "\u{00e9}".to_string(),
    ]);
    let mut expected = vec!["b.mp3", "a.mp3", "B.mp3", "a.mp3", "", "ab", "\u{00e9}"];
    expected.sort();
    assert_eq!(sorted, expected);
}

#[test]
fn slots_are_made_of_directories_with_audio() {
    let listing = vec![
        ListedDirectory {
            path: "/srv/public/media/announcements/lunch".to_string(),
            entries: vec![
                entry("/srv/public/media/announcements/lunch/b.mp3", true),
                entry("/srv/public/media/announcements/lunch/notes.txt", true),
                entry("/srv/public/media/announcements/lunch/a.WAV", true),
                entry("/srv/public/media/announcements/lunch/sub.mp3", false),
            ],
        },
        ListedDirectory {
            path: "/srv/public/media/announcements/empty".to_string(),
            entries: vec![entry("/srv/public/media/announcements/empty/readme.md", true)],
        },
        ListedDirectory {
            path: "/srv/public/media/announcements/closing/".to_string(),
            entries: vec![entry("/srv/public/media/announcements/closing/bye.ogg", true)],
        },
    ];
    let slots = scan_announcement_slots(&listing);
    assert_eq!(
        slots,
        vec![
            slot(
                "lunch",
                &[
                    "/srv/public/media/announcements/lunch/a.WAV",
                    "/srv/public/media/announcements/lunch/b.mp3"
                ]
            ),
            slot("closing", &["/srv/public/media/announcements/closing/bye.ogg"]),
        ]
    );
    assert!(scan_announcement_slots(&Vec::new()).is_empty());
}

#[test]
fn banners_are_the_supported_files_in_order() {
    let banners = scan_banner_files(&vec![
        entry("/srv/public/media/banners/z.png", true),
        entry("/srv/public/media/banners/sub/a.mp4", true),
        entry("/srv/public/media/banners/notes.txt", true),
        entry("/srv/public/media/banners/dir.png", false),
        entry("/srv/public/media/banners/b.JPG", true),
    ]);
    assert_eq!(
        banners,
        vec![
            "/srv/public/media/banners/b.JPG".to_string(),
            "/srv/public/media/banners/sub/a.mp4".to_string(),
            "/srv/public/media/banners/z.png".to_string(),
        ]
    );
}

#[test]
fn slots_are_sorted_by_identifier() {
    let sorted = sort_slots(three_slots());
    let ids: Vec<&str> = sorted.iter().map(|s| s.id.as_str()).collect();
    assert_eq!(ids, vec!["closing", "lunch", "welcome"]);
}

#[test]
fn web_paths_start_at_the_serving_directory() {
    assert_eq!(
        to_web_accessible_path("/srv/public/media/a.mp3", "/srv/public"),
        Some("/media/a.mp3".to_string())
    );
    assert_eq!(
        to_web_accessible_path("/srv/public/media\\b/a.mp3", "/srv/public/"),
        Some("/media/b/a.mp3".to_string())
    );
    assert_eq!(to_web_accessible_path("/srv/public", "/srv/public"), Some("/".to_string()));
    assert_eq!(to_web_accessible_path("/srv/a.mp3", ""), Some("/srv/a.mp3".to_string()));
    assert_eq!(
        to_web_accessible_path("/srv/public/./media/a.mp3", "/srv/./public"),
        Some("/media/a.mp3".to_string())
    );
    assert_eq!(to_web_accessible_path("/srv/other/a.mp3", "/srv/public"), None);
}

#[test]
fn manual_cooldown_counts_down() {
    assert_eq!(manual_cooldown_remaining(0, 0, 0), None);
    assert_eq!(manual_cooldown_remaining(5, 100 * SECOND, 100 * SECOND), Some(5));
    assert_eq!(manual_cooldown_remaining(5, 100 * SECOND, 100 * SECOND + 1), Some(5));
    assert_eq!(manual_cooldown_remaining(5, 100 * SECOND, 101 * SECOND), Some(4));
    assert_eq!(manual_cooldown_remaining(5, 100 * SECOND, 105 * SECOND - 1), Some(1));
    assert_eq!(manual_cooldown_remaining(5, 100 * SECOND, 105 * SECOND), None);
    assert_eq!(manual_cooldown_remaining(5, 100 * SECOND, 90 * SECOND), Some(5));
    assert_eq!(manual_cooldown_remaining(u64::MAX, 0, u64::MAX), Some(u64::MAX - 18_446_744_073));
}

#[test]
fn manager_cycles_through_the_slots() {
    let mut manager =
        AnnouncementManager::new(config_with_cooldown(5), three_slots(), Vec::new(), 100 * SECOND);
    let status = manager.get_current_status(100 * SECOND);
    assert_eq!(status.current_slot_id, Some("closing".to_string()));
    assert_eq!(
        status.current_audio_playlist,
        vec!["/media/announcements/closing/a.mp3".to_string()]
    );
    assert!(!status.cooldown_active);
    assert_eq!(status.cooldown_remaining_seconds, 0);
    assert_eq!(status.cooldown_seconds, 5);
    assert_eq!(status.banner_cycle_interval_seconds, 10);
    assert_eq!(
        status.available_slots,
        vec![
            AnnouncementSlotSummary {
                id: "closing".to_string(),
                audio_playlist: vec!["/media/announcements/closing/a.mp3".to_string()]
            },
            AnnouncementSlotSummary {
                id: "lunch".to_string(),
                audio_playlist: vec!["/media/announcements/lunch/b.mp3".to_string()]
            },
            AnnouncementSlotSummary {
                id: "welcome".to_string(),
                audio_playlist: vec!["/media/announcements/welcome/w.ogg".to_string()]
            },
        ]
    );
    manager.advance_slot();
    assert_eq!(manager.get_current_status(0).current_slot_id, Some("lunch".to_string()));
    manager.advance_slot();
    manager.advance_slot();
    assert_eq!(manager.get_current_status(0).current_slot_id, Some("closing".to_string()));
}

#[test]
fn manual_triggers_respect_the_cooldown() {
    let mut manager =
        AnnouncementManager::new(config_with_cooldown(5), three_slots(), Vec::new(), 100 * SECOND);
    assert_eq!(manager.manual_cooldown_remaining_seconds(100 * SECOND), None);
    assert_eq!(manager.manual_advance_slot(100 * SECOND), Ok(()));
    assert_eq!(manager.get_current_status(100 * SECOND).current_slot_id, Some("lunch".to_string()));
    let result = manager.manual_advance_slot(102 * SECOND);
    assert_eq!(result, Err(ManualTriggerError::CooldownActive { remaining_seconds: 3 }));
    assert!(manual_trigger_is_broadcast(&result));
    let status = manager.get_current_status(102 * SECOND);
    assert_eq!(status.current_slot_id, Some("lunch".to_string()));
    assert!(status.cooldown_active);
    assert_eq!(status.cooldown_remaining_seconds, 3);
    let result = manager.manual_trigger_slot("nowhere", 102 * SECOND);
    assert_eq!(result, Err(ManualTriggerError::SlotNotFound("nowhere".to_string())));
    assert!(!manual_trigger_is_broadcast(&result));
    assert_eq!(
        manager.manual_trigger_slot("welcome", 102 * SECOND),
        Err(ManualTriggerError::CooldownActive { remaining_seconds: 3 })
    );
    assert_eq!(manager.manual_trigger_slot("welcome", 105 * SECOND), Ok(()));
    assert!(manual_trigger_is_broadcast(&Ok(())));
    assert_eq!(manager.get_current_status(105 * SECOND).current_slot_id, Some("welcome".to_string()));
    assert_eq!(manager.manual_cooldown_remaining_seconds(106 * SECOND), Some(4));
}

#[test]
fn manager_made_early_on_the_clock_starts_in_cooldown() {
    let manager =
        AnnouncementManager::new(config_with_cooldown(5), three_slots(), Vec::new(), 2 * SECOND);
    assert_eq!(manager.manual_cooldown_remaining_seconds(2 * SECOND), Some(5));
    assert_eq!(manager.manual_cooldown_remaining_seconds(7 * SECOND), None);
}

#[test]
fn manager_without_slots_turns_triggers_down() {
    let banners = vec!["/srv/public/media/banners/b.png".to_string(), "/tmp/x.png".to_string()];
    let mut manager = AnnouncementManager::new(config_with_cooldown(0), Vec::new(), banners, 0);
    let result = manager.manual_advance_slot(0);
    assert_eq!(result, Err(ManualTriggerError::NoSlotsAvailable));
    assert!(!manual_trigger_is_broadcast(&result));
    assert_eq!(manager.manual_trigger_slot("x", 0), Err(ManualTriggerError::NoSlotsAvailable));
    manager.advance_slot();
    let status = manager.get_current_status(0);
    assert_eq!(status.current_slot_id, None);
    assert!(status.current_audio_playlist.is_empty());
    assert_eq!(status.current_banner_playlist, vec!["/media/banners/b.png".to_string()]);
    assert!(status.available_slots.is_empty());
    assert!(!status.cooldown_active);
}

#[test]
fn manual_trigger_errors_in_words() {
    assert_eq!(
        ManualTriggerError::CooldownActive { remaining_seconds: 7 }.message(),
        "Manual trigger is on cooldown (7 seconds remaining)"
    );
    assert_eq!(
        ManualTriggerError::SlotNotFound("x".to_string()).message(),
        "Announcement slot 'x' was not found"
    );
    assert_eq!(
        ManualTriggerError::NoSlotsAvailable.message(),
        "No announcement slots are available to trigger"
    );
}
