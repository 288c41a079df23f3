use queue_calling_system::cache::{
    _get_cache_file_path, get_multi_language_cache_file_path, get_sanitized_call_filename,
    get_web_accessible_audio_url, join_path, prune_cache, sanitize, strip_base, web_url_for,
    CacheFile,
};

fn file(modified: u64, path: &str) -> CacheFile {
    CacheFile { modified, path: path.to_string() }
}

#[test]
fn sanitize_keeps_letters_digits_hyphen_and_dot() {
    assert_eq!(sanitize("A01"), "A01");
    assert_eq!(sanitize("Counter 1"), "Counter_1");
    assert_eq!(sanitize("a/b\\c:d"), "a_b_c_d");
    assert_eq!(sanitize("en-GB.v2"), "en-GB.v2");
    assert_eq!(sanitize(""), "");
    assert_eq!(sanitize("\u{0e01}\u{0e02} x"), "\u{0e01}\u{0e02}_x");
}

#[test]
fn sanitize_is_idempotent_on_examples() {
    for text in ["A01", "Counter 1", "a/b\\c:d", "__", "x y z", "\u{0e01} \u{00e9}!", "~tilde~"] {
        let once = sanitize(text);
        assert_eq!(sanitize(&once), once);
    }
}

#[test]
fn call_filename_joins_id_and_location() {
    assert_eq!(get_sanitized_call_filename("A01", "Counter 1"), "A01-Counter_1.mp3");
    assert_eq!(get_sanitized_call_filename("A01", "4"), "A01-4.mp3");
}

#[test]
fn join_path_puts_one_slash_between() {
    assert_eq!(join_path("/tmp/cache", "multi"), "/tmp/cache/multi");
    assert_eq!(join_path("/tmp/cache/", "multi"), "/tmp/cache/multi");
    assert_eq!(join_path("", "multi"), "multi");
    assert_eq!(join_path("/tmp/cache", ""), "/tmp/cache/");
    assert_eq!(join_path("/tmp/cache", "/abs/olute"), "/abs/olute");
}

#[test]
fn join_path_agrees_with_the_standard_library() {
    for (base, part) in [
        ("/tmp/cache", "multi"),
        ("/tmp/cache/", "multi"),
        ("", "multi"),
        ("/tmp/cache", ""),
        ("/tmp/cache", "/abs/olute"),
        ("./public", "media/audio_cache/multi"),
        ("rel", "a-b.mp3"),
    ] {
        let expected = std::path::Path::new(base).join(part);
        assert_eq!(join_path(base, part), expected.to_string_lossy());
    }
}

#[test]
fn cache_paths_are_deterministic() {
    let first = get_multi_language_cache_file_path("/tmp/cache", "A01", "4");
    let second = get_multi_language_cache_file_path("/tmp/cache", "A01", "4");
    assert_eq!(first, second);
    assert_eq!(first, "/tmp/cache/multi/A01-4.mp3");
    assert_eq!(_get_cache_file_path("/tmp/cache", "en-uk", "A01", "Counter 1"), "/tmp/cache/en-uk/A01-Counter_1.mp3");
    assert_eq!(_get_cache_file_path("/tmp/cache", "e/n", "A 1", "4"), "/tmp/cache/e_n/A_1-4.mp3");
}

#[test]
fn strip_base_works_on_segments() {
    assert_eq!(strip_base("/tmp/cache/multi/A01-4.mp3", "/tmp/cache"), Some("multi/A01-4.mp3".to_string()));
    assert_eq!(strip_base("/tmp/cache/multi/A01-4.mp3", "/tmp/cache/"), Some("multi/A01-4.mp3".to_string()));
    assert_eq!(strip_base("/tmp/cachefoo/x.mp3", "/tmp/cache"), None);
    assert_eq!(strip_base("tmp/cache/x.mp3", "/tmp/cache"), None);
    assert_eq!(strip_base("/tmp/cache", "/tmp/cache"), Some("".to_string()));
    assert_eq!(strip_base("/a/b", ""), Some("/a/b".to_string()));
    assert_eq!(strip_base("a/b", ""), Some("a/b".to_string()));
    assert_eq!(strip_base("/a", "/a/b"), None);
}

#[test]
fn web_url_has_no_empty_segment() {
    assert_eq!(web_url_for("multi/A01-4.mp3", "/tts_cache"), "/tts_cache/multi/A01-4.mp3");
    assert_eq!(web_url_for("multi/A01-4.mp3", "tts_cache/"), "/tts_cache/multi/A01-4.mp3");
    assert_eq!(web_url_for("multi//A01-4.mp3", "//a//b//"), "/a/b/multi/A01-4.mp3");
    assert_eq!(web_url_for("multi\\A01-4.mp3", ""), "/multi/A01-4.mp3");
    assert_eq!(web_url_for("", ""), "/");
}

#[test]
fn web_accessible_url_of_a_cache_file() {
    let path = get_multi_language_cache_file_path("/tmp/cache", "A01", "4");
    assert_eq!(
        get_web_accessible_audio_url(&path, "./public", "/tmp/cache", "/tts_cache"),
        Some("/tts_cache/multi/A01-4.mp3".to_string())
    );
    assert_eq!(get_web_accessible_audio_url(&path, "./public", "/elsewhere", "/tts_cache"), None);
}

#[test]
fn pruning_is_off_with_a_ceiling_of_zero() {
    let files = vec![file(3, "c"), file(1, "a"), file(2, "b")];
    let plan = prune_cache(files.clone(), 0);
    assert!(plan.to_delete.is_empty());
    assert_eq!(plan.retained, files);
}

#[test]
fn pruning_leaves_a_cache_within_its_ceiling_alone() {
    let files = vec![file(3, "c"), file(1, "a"), file(2, "b")];
    let plan = prune_cache(files.clone(), 3);
    assert!(plan.to_delete.is_empty());
    assert_eq!(plan.retained, files);
    let plan = prune_cache(Vec::new(), 5);
    assert!(plan.to_delete.is_empty() && plan.retained.is_empty());
}

#[test]
fn pruning_deletes_the_oldest_files() {
    let files = vec![file(30, "c"), file(10, "a"), file(50, "e"), file(20, "b"), file(40, "d")];
    let plan = prune_cache(files, 2);
    assert_eq!(plan.to_delete, vec![file(10, "a"), file(20, "b"), file(30, "c")]);
    assert_eq!(plan.retained, vec![file(40, "d"), file(50, "e")]);
}

#[test]
fn pruning_invariant_with_ties() {
    let files = vec![
        file(5, "f1"), file(5, "f2"), file(1, "f3"), file(9, "f4"), file(5, "f5"), file(1, "f6"),
        file(7, "f7"),
    ];
    for max in 1..7usize {
        let plan = prune_cache(files.clone(), max);
        assert_eq!(plan.retained.len(), max);
        assert_eq!(plan.to_delete.len(), files.len() - max);
        for kept in &plan.retained {
            for gone in &plan.to_delete {
                assert!(kept.modified >= gone.modified);
            }
        }
        let mut all: Vec<String> = plan.to_delete.iter().chain(plan.retained.iter()).map(|f| f.path.clone()).collect();
        all.sort();
        assert_eq!(all, vec!["f1", "f2", "f3", "f4", "f5", "f6", "f7"]);
    }
}

#[test]
fn ascii_characters_are_kept_where_they_are_letters_or_digits() {
    for code in 0u32..128 {
        let c = char::from_u32(code).unwrap();
        let kept = c.is_ascii_alphabetic() || c.is_ascii_digit() || c == '-' || c == '.';
        let expected = if kept { c.to_string() } else { "_".to_string() };
        assert_eq!(sanitize(&c.to_string()), expected, "character U+{:04X}", code);
    }
}

#[test]
fn dots_in_a_path_lead_nowhere() {
    assert_eq!(strip_base("/a/./b", "/a/b"), Some("".to_string()));
    assert_eq!(strip_base("/a/./b/c", "/a/b"), Some("c".to_string()));
    assert_eq!(strip_base("/a/b/c", "/a/./b/."), Some("c".to_string()));
    assert_eq!(strip_base("/a/b/./c/./d/.", "/a"), Some("b/c/d".to_string()));
    assert_eq!(strip_base("/./a", "/a"), Some("".to_string()));
    // A dot at the start of a relative path is a segment of its own.
    assert_eq!(strip_base("./a/b", "./a"), Some("b".to_string()));
    assert_eq!(strip_base("./a/b", "."), Some("a/b".to_string()));
    assert_eq!(strip_base("./a/b", "a"), None);
    assert_eq!(strip_base("a/b", "./a"), None);
    assert_eq!(strip_base("a/./b", "a/b"), Some("".to_string()));
    // Two dots are a segment like any other.
    assert_eq!(strip_base("/a/../b", "/a/.."), Some("b".to_string()));
    assert_eq!(strip_base("/a/../b", "/a/b"), None);
}

#[test]
fn strip_base_agrees_with_the_standard_library() {
    let paths = [
        "/tmp/cache/multi/A01-4.mp3", "/tmp/cache", "/tmp/cache/", "/tmp/cachefoo/x.mp3",
        "tmp/cache/x.mp3", "/a/./b", "/a/b", "/a/b/.", "/a/./b/c", "./a/b", "./a", ".", "a", "a/b",
        "a/./b", "/", "", "/a/../b", "/a/..", "//a//b", "/a",
    ];
    for path in paths {
        for base in paths {
            let expected = std::path::Path::new(path).strip_prefix(std::path::Path::new(base)).ok();
            let got = strip_base(path, base);
            assert_eq!(got.is_some(), expected.is_some(), "{:?} below {:?}", path, base);
            if let (Some(got), Some(expected)) = (got, expected) {
                // What is left names the same place: the same segments.
                let left: Vec<String> = std::path::Path::new(&got)
                    .components()
                    .map(|c| c.as_os_str().to_string_lossy().into_owned())
                    .collect();
                let right: Vec<String> = expected
                    .components()
                    .map(|c| c.as_os_str().to_string_lossy().into_owned())
                    .collect();
                assert_eq!(left, right, "{:?} below {:?}", path, base);
            }
        }
    }
}
