//! The settings of the application, as plain values, and what is derived from
//! them. Where the values come from is the business of the program that
//! loads them.

use vstd::prelude::*;
use crate::cache::{joined_path, join_path};
use crate::segment::views;
use crate::text::{
    same_ignoring_ascii_case, split_on, trimmed, lemma_split_on_non_empty, chars_of,
    chars_equal_ignoring_ascii_case, split_chars, trim_chars, string_of_chars, rows,
};

verus! {

/// The complete configuration of the application.
#[derive(Debug, Clone)]
pub struct AppConfig {
    /// The address the HTTP server binds to, as text.
    pub server_address: String,
    /// The port the HTTP server listens on.
    pub server_port: u16,
    /// How many completed calls the queue remembers.
    pub max_history_size: usize,
    /// How many skipped calls the queue remembers.
    pub max_skipped_history_size: usize,
    /// The directory from which static files are served.
    pub serve_dir_path: String,
    /// Where, below the serving directory, the announcement audio lies.
    pub announcements_audio_sub_path: String,
    /// Where, below the serving directory, the banners lie.
    pub banners_sub_path: String,
    /// Seconds between two automatic changes of the announcement slot; zero
    /// turns the cycle off.
    pub announcement_auto_cycle_interval_seconds: u64,
    /// Seconds that must pass between two manual triggers.
    pub announcement_manual_trigger_cooldown_seconds: u64,
    /// Seconds a banner stays on the display.
    pub banner_rotation_interval_seconds: u64,
    /// The root directory of the cache of synthesized audio.
    pub gtts_cache_base_path: String,
    /// How many files the cache may hold; zero means any number.
    pub tts_cache_maximum_files: usize,
    /// Seconds one request to the synthesis endpoint may take.
    pub tts_external_service_timeout_seconds: u64,
    /// The supported languages, in order: entries `code:Display Name`, or just
    /// `code`, separated by commas.
    pub tts_supported_languages: String,
    /// Seconds between two keep-alive messages on an event stream.
    pub sse_keep_alive_interval_seconds: u64,
    /// How many events the event bus buffers.
    pub sse_event_buffer_size: usize,
    /// The URL path under which the cache directory is served.
    pub tts_cache_web_path: String,
}

/// A language code as the rest of the system writes it: `en-GB`, in any case,
/// becomes `en-uk`; every other code stays as it is.
pub open spec fn normalized_language_code(raw: Seq<char>) -> Seq<char> {
    if same_ignoring_ascii_case(raw, "en-GB"@) {
        "en-uk"@
    } else {
        raw
    }
}

/// The language code that one entry of the list states: what stands before
/// the first colon of the entry, once the entry is trimmed; `None` for an
/// entry that is blank or states an empty code.
pub open spec fn code_of_entry(entry: Seq<char>) -> Option<Seq<char>> {
    let lang_part = trimmed(entry);
    if lang_part.len() == 0 {
        None
    } else {
        let code = normalized_language_code(split_on(lang_part, ':')[0]);
        if code.len() == 0 {
            None
        } else {
            Some(code)
        }
    }
}

/// The codes that the entries state, in the order of the entries.
pub open spec fn codes_of_entries(entries: Seq<Seq<char>>) -> Seq<Seq<char>>
    decreases entries.len(),
{
    if entries.len() == 0 {
        Seq::<Seq<char>>::empty()
    } else {
        let before = codes_of_entries(entries.drop_last());
        match code_of_entry(entries.last()) {
            Some(code) => before.push(code),
            None => before,
        }
    }
}

/// The language codes that a list of supported languages states, in order.
pub open spec fn ordered_language_codes(list: Seq<char>) -> Seq<Seq<char>> {
    if list.len() == 0 {
        Seq::<Seq<char>>::empty()
    } else {
        codes_of_entries(split_on(list, ','))
    }
}

/// Writes a language code the way the rest of the system does.
pub fn normalize_language_code(raw: &str) -> (code: String)
    ensures
        code@ == normalized_language_code(raw@),
{
    if chars_equal_ignoring_ascii_case(&chars_of(raw), &chars_of("en-GB")) {
        String::from_str("en-uk")
    } else {
        String::from_str(raw)
    }
}

/// The language code that one entry of the list states.
fn entry_code(entry: &Vec<char>) -> (r: Option<String>)
    ensures
        match r {
            Some(code) => code_of_entry(entry@) == Some(code@),
            None => code_of_entry(entry@) is None,
        },
{
    let lang_part = trim_chars(entry);
    if lang_part.len() == 0 {
        return None;
    }
    let pieces = split_chars(&lang_part, ':');
    proof {
        lemma_split_on_non_empty(lang_part@, ':');
        assert(rows(pieces@)[0] == pieces@[0]@);
    }
    let code = normalize_language_code(string_of_chars(&pieces[0]).as_str());
    if code.as_str().unicode_len() == 0 {
        None
    } else {
        Some(code)
    }
}

impl AppConfig {
    /// The directory that holds the announcement audio.
    pub fn announcement_audio_base_path(&self) -> (path: String)
        ensures
            path@ == joined_path(self.serve_dir_path@, self.announcements_audio_sub_path@),
    {
        join_path(self.serve_dir_path.as_str(), self.announcements_audio_sub_path.as_str())
    }

    /// The directory that holds the banners.
    pub fn banner_base_path(&self) -> (path: String)
        ensures
            path@ == joined_path(self.serve_dir_path@, self.banners_sub_path@),
    {
        join_path(self.serve_dir_path.as_str(), self.banners_sub_path.as_str())
    }

    /// The codes of the supported languages, in the order in which the
    /// configuration lists them. Blank entries and entries without a code are
    /// passed over; display names are left out.
    pub fn ordered_supported_language_codes(&self) -> (codes: Vec<String>)
        ensures
            views(codes@) == ordered_language_codes(self.tts_supported_languages@),
    {
        let list = chars_of(self.tts_supported_languages.as_str());
        let mut codes: Vec<String> = Vec::new();
        if list.len() == 0 {
            assert(views(codes@) =~= Seq::<Seq<char>>::empty());
            return codes;
        }
        let entries = split_chars(&list, ',');
        let ghost all = rows(entries@);
        let mut i: usize = 0;
        assert(all.take(0) =~= Seq::<Seq<char>>::empty());
        assert(views(codes@) =~= Seq::<Seq<char>>::empty());
        while i < entries.len()
            invariant
                i <= entries.len(),
                all == rows(entries@),
                views(codes@) == codes_of_entries(all.take(i as int)),
            decreases entries.len() - i,
        {
            let ghost before = views(codes@);
            proof {
                let next = all.take(i + 1);
                assert(next.drop_last() =~= all.take(i as int));
                assert(next.last() == entries@[i as int]@);
            }
            match entry_code(&entries[i]) {
                Some(code) => {
                    codes.push(code);
                    assert(views(codes@) =~= before.push(code@));
                },
                None => {},
            }
            i += 1;
        }
        assert(all.take(i as int) == all);
        codes
    }
}

} // verus!
