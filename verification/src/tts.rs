//! Speech for a call: which requests are accepted, what is said, and where
//! the synthesis service is asked for it.
//!
//! The audio comes, in this order of preference, from a file that was made
//! ahead of time, from the cache of earlier syntheses, from the synthesis
//! service, or, where all else fails, from pre-recorded fragments. The steps
//! of that search stand in `task`, a run of the synthesis service in `online`.

use vstd::prelude::*;
use crate::config::{AppConfig, ordered_language_codes};
use crate::fallback::{build_stem_audio_urls, stem_urls};
use crate::identity::IdentitySet;
use crate::languages::{LanguageMap, language_map_of};
use crate::segment::{segment, split_long_text_static, views};
use crate::text::{lowercase, to_lowercase, str_equal, concat, decimal_text, decimal_string};
use crate::AppEvent;

verus! {

/// How many characters one request to the synthesis service may carry.
pub const MAX_CHARS_PER_CHUNK: usize = 200;

/// How many seconds the synthesis service is given for a whole announcement,
/// all languages and chunks together, before the fallback takes over.
pub const ONLINE_TTS_TIMEOUT_SECONDS: u64 = 5;

/// The address of the synthesis service.
pub open spec fn tts_url_base() -> Seq<char> {
    "http://translate.google.com/translate_tts"@
}

/// The sentence that announces a call, in the phrasing of a language code
/// that is already in lower case. Thai has its own phrasing; every other code
/// gets the English one.
pub open spec fn speak_text_in(id: Seq<char>, location: Seq<char>, lowered: Seq<char>) -> Seq<char> {
    if lowered == "th"@ {
        " "@ + id + ",  "@ + location
    } else {
        "Number "@ + id + ", to counter "@ + location
    }
}

/// The sentence that announces a call in a language.
pub open spec fn speak_text(id: Seq<char>, location: Seq<char>, lang: Seq<char>) -> Seq<char> {
    speak_text_in(id, location, lowercase(lang))
}

/// Whether a byte stands for itself in a URL: the ASCII letters and digits,
/// and `-`, `.`, `_`, `~`.
pub open spec fn is_unreserved(b: u8) -> bool {
    (0x30 <= b && b <= 0x39) || (0x41 <= b && b <= 0x5A) || (0x61 <= b && b <= 0x7A) || b == 0x2D
        || b == 0x2E || b == 0x5F || b == 0x7E
}

/// The character that writes a value below sixteen in base sixteen, with
/// capital letters.
pub open spec fn hex_digit(d: u8) -> char {
    if d < 10 {
        ((0x30 + d) as u8) as char
    } else {
        ((0x41 + d - 10) as u8) as char
    }
}

/// One byte as it stands in a URL: itself where it is unreserved, else a
/// percent sign and its two hexadecimal digits.
pub open spec fn percent_encoded_byte(b: u8) -> Seq<char> {
    if is_unreserved(b) {
        seq![b as char]
    } else {
        seq!['%', hex_digit(b / 16), hex_digit(b % 16)]
    }
}

/// Bytes as they stand in a URL, byte by byte.
pub open spec fn percent_encoded(bytes: Seq<u8>) -> Seq<char>
    decreases bytes.len(),
{
    if bytes.len() == 0 {
        Seq::<char>::empty()
    } else {
        percent_encoded(bytes.drop_last()) + percent_encoded_byte(bytes.last())
    }
}

/// The URL that asks the synthesis service for chunk `idx` of `total_parts`
/// chunks: the text percent-encoded, its length counted in bytes of UTF-8.
pub open spec fn google_tts_url(
    text_part: Seq<char>,
    lang: Seq<char>,
    idx: nat,
    total_parts: nat,
) -> Seq<char> {
    let bytes = vstd::utf8::encode_utf8(text_part);
    tts_url_base() + "?ie=UTF-8&q="@ + percent_encoded(bytes) + "&tl="@ + lang + "&total="@
        + decimal_text(total_parts) + "&idx="@ + decimal_text(idx) + "&textlen="@ + decimal_text(
        bytes.len(),
    ) + "&client=tw-ob&prev=input&ttsspeed=1"@
}

/// `urlencoding::encode`: the UTF-8 bytes of the text, each unreserved byte
/// (ASCII letter or digit, `-`, `.`, `_`, `~`) as it is and every other byte
/// as `%` and two hexadecimal digits in capitals.
#[verifier::external_body]
fn url_encode(text: &str) -> (encoded: String)
    ensures
        encoded@ == percent_encoded(vstd::utf8::encode_utf8(text@)),
{
    urlencoding::encode(text).into_owned()
}

/// The sentence that announces a call, in the phrasing of a language code
/// that is already in lower case.
pub fn build_speak_text_in(id: &str, location: &str, lowered: &str) -> (text: String)
    ensures
        text@ == speak_text_in(id@, location@, lowered@),
{
    if str_equal(lowered, "th") {
        let mut text = concat(" ", id);
        text.append(",  ");
        text.append(location);
        text
    } else {
        let mut text = concat("Number ", id);
        text.append(", to counter ");
        text.append(location);
        text
    }
}

/// The sentence that announces a call in a language.
pub fn build_speak_text(id: &str, location: &str, lang: &str) -> (text: String)
    ensures
        text@ == speak_text(id@, location@, lang@),
{
    build_speak_text_in(id, location, to_lowercase(lang).as_str())
}

/// The URL that asks the synthesis service for one chunk.
pub fn static_build_google_tts_url(text_part: &str, lang: &str, idx: usize, total_parts: usize) -> (url:
    String)
    ensures
        url@ == google_tts_url(text_part@, lang@, idx as nat, total_parts as nat),
{
    let mut url = concat("http://translate.google.com/translate_tts", "?ie=UTF-8&q=");
    url.append(url_encode(text_part).as_str());
    url.append("&tl=");
    url.append(lang);
    url.append("&total=");
    url.append(decimal_string(total_parts as u128).as_str());
    url.append("&idx=");
    url.append(decimal_string(idx as u128).as_str());
    url.append("&textlen=");
    url.append(decimal_string(text_part.as_bytes().len() as u128).as_str());
    url.append("&client=tw-ob&prev=input&ttsspeed=1");
    url
}

/// A request for speech that was accepted.
#[derive(Debug, Clone, PartialEq, Eq)]
pub struct SynthesisRequest {
    /// The call to announce.
    pub call_id: String,
    /// The counter that serves it.
    pub location: String,
    /// The language that was asked for; it is one of the supported ones.
    pub language: String,
    /// The announcement in that language, cut into chunks; empty where it
    /// cannot be cut.
    pub text_parts: Vec<String>,
}

/// The chunks of the announcement of a call in a language; none where the
/// announcement cannot be cut.
pub open spec fn announcement_chunks(id: Seq<char>, location: Seq<char>, lang: Seq<char>) -> Seq<
    Seq<char>,
> {
    match segment(speak_text(id, location, lang), MAX_CHARS_PER_CHUNK as nat) {
        Ok(chunks) => chunks,
        Err(_) => Seq::<Seq<char>>::empty(),
    }
}

/// The message that turns down a language that is not supported.
pub open spec fn unsupported_language_message(lang: Seq<char>) -> Seq<char> {
    "Unsupported language for TTS: "@ + lang
}

/// What the speech subsystem keeps between requests.
#[derive(Debug)]
pub struct TTSManager {
    config: AppConfig,
    supported_languages_map: LanguageMap,
    last_call_uas: IdentitySet,
}

impl TTSManager {
    /// The settings.
    pub closed spec fn settings(&self) -> AppConfig {
        self.config
    }

    /// The supported languages, code to display name.
    pub closed spec fn supported(&self) -> Map<Seq<char>, Seq<char>> {
        self.supported_languages_map@
    }

    /// The identities under which the last job that was completed sent its
    /// requests.
    pub closed spec fn history(&self) -> Set<Seq<char>> {
        self.last_call_uas@
    }

    /// A manager for the given settings. It supports the languages that the
    /// settings list, and remembers no identities yet.
    pub fn new(config: AppConfig) -> (manager: Self)
        ensures
            manager.settings() == config,
            manager.supported() == language_map_of(config.tts_supported_languages@),
            manager.history() == Set::<Seq<char>>::empty(),
    {
        let supported_languages_map = LanguageMap::parse(config.tts_supported_languages.as_str());
        TTSManager { config, supported_languages_map, last_call_uas: IdentitySet::new() }
    }

    /// The supported languages, code to display name.
    pub fn get_supported_languages(&self) -> (map: &LanguageMap)
        ensures
            map@ == self.supported(),
    {
        &self.supported_languages_map
    }

    /// The identities under which the last job that was completed sent its
    /// requests.
    pub fn last_identities(&self) -> (set: &IdentitySet)
        ensures
            set@ == self.history(),
    {
        &self.last_call_uas
    }

    /// Cuts a text into chunks of at most `max_length` characters.
    pub fn split_long_text(&self, text: &str, max_length: usize) -> (r: Result<Vec<String>, String>)
        ensures
            match r {
                Ok(chunks) => segment(text@, max_length as nat) == Ok::<
                    Seq<Seq<char>>,
                    Seq<char>,
                >(views(chunks@)),
                Err(msg) => segment(text@, max_length as nat) == Err::<Seq<Seq<char>>, Seq<char>>(
                    msg@,
                ),
            },
    {
        split_long_text_static(text, max_length)
    }

    /// Accepts or turns down a request for speech.
    ///
    /// The one request that is turned down is a request in a language that is
    /// not among the supported ones; the message names the language. Every
    /// other request is accepted and comes back ready to be worked on;
    /// nothing has been fetched or published yet. Whatever goes wrong with an
    /// accepted request later is the business of the work on it, which ends
    /// in the fallback. An announcement that cannot be cut into chunks is such
    /// a case: the request is accepted all the same, without chunks.
    pub fn trigger_tts_generation(&self, id: String, location: String, lang: String) -> (r: Result<
        SynthesisRequest,
        String,
    >)
        ensures
            r is Err <==> !self.supported().dom().contains(lang@),
            match r {
                Ok(request) => {
                    &&& request.call_id@ == id@
                    &&& request.location@ == location@
                    &&& request.language@ == lang@
                    &&& views(request.text_parts@) == announcement_chunks(id@, location@, lang@)
                },
                Err(msg) => msg@ == unsupported_language_message(lang@),
            },
    {
        if !self.supported_languages_map.contains_key(lang.as_str()) {
            return Err(concat("Unsupported language for TTS: ", lang.as_str()));
        }
        let text_for_this_lang = build_speak_text(id.as_str(), location.as_str(), lang.as_str());
        let text_parts = match self.split_long_text(
            text_for_this_lang.as_str(),
            MAX_CHARS_PER_CHUNK,
        ) {
            Ok(parts) => parts,
            Err(_) => {
                let none: Vec<String> = Vec::new();
                assert(views(none@) =~= Seq::<Seq<char>>::empty());
                none
            },
        };
        Ok(SynthesisRequest { call_id: id, location, language: lang, text_parts })
    }

    /// Remembers the identities of a job that was completed, in place of
    /// those of the job before it.
    pub fn remember_identities(&mut self, uas_this_task: IdentitySet)
        ensures
            final(self).history() == uas_this_task@,
            final(self).settings() == old(self).settings(),
            final(self).supported() == old(self).supported(),
    {
        self.last_call_uas = uas_this_task;
    }
}

/// The playlist of stems that announces a call in all the languages that the
/// settings list.
pub fn build_stem_audio_urls_for_all_languages(config: &AppConfig, id: &str, location: &str) -> (urls:
    Vec<String>)
    ensures
        views(urls@) == stem_urls(
            id@,
            location@,
            ordered_language_codes(config.tts_supported_languages@),
        ),
{
    let ordered_lang_codes = config.ordered_supported_language_codes();
    build_stem_audio_urls(id, location, &ordered_lang_codes)
}

/// Whether an event says that the audio for the given call is ready, with
/// the given URLs to play.
pub open spec fn is_completion(
    event: AppEvent,
    id: Seq<char>,
    location: Seq<char>,
    lang: Seq<char>,
    urls: Seq<Seq<char>>,
) -> bool {
    event matches AppEvent::TTSComplete { id: i, location: l, lang: g, audio_urls: u } && i@ == id
        && l@ == location && g@ == lang && views(u@) == urls
}

/// The event that says that the audio for a call is ready.
pub(crate) fn completion(id: &str, location: &str, lang: &str, audio_urls: Vec<String>) -> (event: AppEvent)
    ensures
        is_completion(event, id@, location@, lang@, views(audio_urls@)),
{
    AppEvent::TTSComplete {
        id: String::from_str(id),
        location: String::from_str(location),
        lang: String::from_str(lang),
        audio_urls,
    }
}

/// Falls back to the pre-recorded fragments: the event to publish, with the
/// playlist for all languages, or `None` where there is nothing to play
/// because no language is configured.
pub fn fallback_to_stem_audio(config: &AppConfig, id: &str, location: &str, lang: &str) -> (r:
    Option<AppEvent>)
    ensures
        match r {
            Some(event) => {
                &&& stem_urls(
                    id@,
                    location@,
                    ordered_language_codes(config.tts_supported_languages@),
                ).len() > 0
                &&& is_completion(
                    event,
                    id@,
                    location@,
                    lang@,
                    stem_urls(
                        id@,
                        location@,
                        ordered_language_codes(config.tts_supported_languages@),
                    ),
                )
            },
            None => stem_urls(
                id@,
                location@,
                ordered_language_codes(config.tts_supported_languages@),
            ).len() == 0,
        },
{
    let audio_urls = build_stem_audio_urls_for_all_languages(config, id, location);
    if audio_urls.len() == 0 {
        None
    } else {
        Some(completion(id, location, lang, audio_urls))
    }
}

} // verus!
