//! Calling a translator to a counter: the request is checked, held back
//! while the last call is too recent, and turned into a playlist.
//!
//! The time comes from the caller: a reading, in nanoseconds, of a clock that
//! never runs backwards.

use vstd::prelude::*;
use crate::announcements::NANOS_PER_SECOND;
use crate::config::AppConfig;
use crate::segment::views;
use crate::text::{
    is_ascii_digit, char_is_ascii_digit, trimmed, trim_chars, chars_of, string_of_chars,
    decimal_text, decimal_string, concat, push_char,
};
use crate::AppEvent;

verus! {

/// Where the cooldown of the translator call stands.
#[derive(Debug, Clone, Copy, PartialEq, Eq, Structural)]
pub struct TranslatorStatus {
    /// Seconds that must pass between two calls.
    pub cooldown_seconds: u64,
    /// Seconds until the next call is accepted.
    pub cooldown_remaining_seconds: u64,
    /// Whether a call would be turned down now.
    pub cooldown_active: bool,
}

/// A translator call that was accepted.
#[derive(Debug, Clone, PartialEq, Eq)]
pub struct TranslatorCallOutcome {
    /// The counter, as digits.
    pub location: String,
    /// The cooldown as it stands after the call.
    pub status: TranslatorStatus,
}

/// Why a translator call was turned down.
#[derive(Debug, Clone, PartialEq, Eq)]
pub enum TranslatorCallError {
    /// The last call is too recent.
    CooldownActive { remaining_seconds: u64 },
    /// No counter was given.
    MissingLocation,
    /// The counter given is not made of digits.
    InvalidLocation(String),
}

/// The words of a `TranslatorCallError`.
pub open spec fn translator_error_text(err: TranslatorCallError) -> Seq<char> {
    match err {
        TranslatorCallError::CooldownActive { remaining_seconds } => "Translator call is on cooldown ("@
            + decimal_text(remaining_seconds as nat) + " seconds remaining)."@,
        TranslatorCallError::MissingLocation => "Translator call requires a valid counter location."@,
        TranslatorCallError::InvalidLocation(value) => "Translator call location must be digits only. Received: "@
            + value@,
    }
}

impl TranslatorCallError {
    /// The error in words.
    pub fn message(&self) -> (text: String)
        ensures
            text@ == translator_error_text(*self),
    {
        match self {
            TranslatorCallError::CooldownActive { remaining_seconds } => {
                let mut text = concat(
                    "Translator call is on cooldown (",
                    decimal_string(*remaining_seconds as u128).as_str(),
                );
                text.append(" seconds remaining).");
                text
            },
            TranslatorCallError::MissingLocation => String::from_str(
                "Translator call requires a valid counter location.",
            ),
            TranslatorCallError::InvalidLocation(value) => concat(
                "Translator call location must be digits only. Received: ",
                value.as_str(),
            ),
        }
    }
}

/// Whether a text is made of digits only.
pub open spec fn all_digits(s: Seq<char>) -> bool {
    forall|i: int| 0 <= i < s.len() ==> is_ascii_digit(#[trigger] s[i])
}

/// The counter that a request names: the request without the white space
/// around it, where that is not empty and made of digits only.
pub open spec fn sanitized_location(raw: Seq<char>) -> Result<Seq<char>, TranslatorCallErrorKind> {
    let trimmed = trimmed(raw);
    if trimmed.len() == 0 {
        Err(TranslatorCallErrorKind::MissingLocation)
    } else if !all_digits(trimmed) {
        Err(TranslatorCallErrorKind::InvalidLocation)
    } else {
        Ok(trimmed)
    }
}

/// The ways in which the counter of a request can be wrong.
#[derive(Debug, Clone, Copy, PartialEq, Eq, Structural)]
pub enum TranslatorCallErrorKind {
    MissingLocation,
    InvalidLocation,
}

/// The URL of the stem that speaks the character `c` of a counter: the digit
/// itself, or zero for a character that is no digit.
pub open spec fn counter_digit_url(c: char) -> Seq<char> {
    "/media/audio_stems/th/number_00"@ + seq![
        if is_ascii_digit(c) {
            c
        } else {
            '0'
        },
    ] + ".mp3"@
}

/// The playlist that calls a translator to a counter: the call itself, then
/// one stem for each character of the counter.
pub open spec fn translator_playlist(location: Seq<char>) -> Seq<Seq<char>> {
    seq!["/media/audio_stems/th/call_translator_at.mp3"@] + location.map_values(
        |c: char| counter_digit_url(c),
    )
}

/// The seconds for which translator calls are still turned down, zero where
/// the next one is accepted. A cooldown that has not run out counts for at
/// least one second.
pub open spec fn translator_cooldown_remaining(
    cooldown_seconds: u64,
    last: Option<u64>,
    now: u64,
) -> u64 {
    match last {
        Some(previous) => {
            let elapsed: int = if now >= previous {
                now - previous
            } else {
                0
            };
            let whole: int = cooldown_seconds * NANOS_PER_SECOND;
            if cooldown_seconds == 0 || elapsed >= whole {
                0
            } else if (whole - elapsed) / (NANOS_PER_SECOND as int) < 1 {
                1
            } else {
                ((whole - elapsed) / (NANOS_PER_SECOND as int)) as u64
            }
        },
        None => 0,
    }
}

/// Checks the counter of a request.
pub fn sanitize_location(raw: &str) -> (r: Result<String, TranslatorCallError>)
    ensures
        match r {
            Ok(location) => sanitized_location(raw@) == Ok::<Seq<char>, TranslatorCallErrorKind>(
                location@,
            ),
            Err(TranslatorCallError::MissingLocation) => sanitized_location(raw@) == Err::<
                Seq<char>,
                TranslatorCallErrorKind,
            >(TranslatorCallErrorKind::MissingLocation),
            Err(TranslatorCallError::InvalidLocation(value)) => sanitized_location(raw@) == Err::<
                Seq<char>,
                TranslatorCallErrorKind,
            >(TranslatorCallErrorKind::InvalidLocation) && value@ == trimmed(raw@),
            Err(TranslatorCallError::CooldownActive { .. }) => false,
        },
{
    let kept = trim_chars(&chars_of(raw));
    if kept.len() == 0 {
        return Err(TranslatorCallError::MissingLocation);
    }
    let mut i: usize = 0;
    while i < kept.len()
        invariant
            i <= kept.len(),
            kept@ == trimmed(raw@),
            forall|k: int| 0 <= k < i ==> is_ascii_digit(#[trigger] kept@[k]),
        decreases kept.len() - i,
    {
        if !char_is_ascii_digit(kept[i]) {
            assert(!is_ascii_digit(kept@[i as int]));
            return Err(TranslatorCallError::InvalidLocation(string_of_chars(&kept)));
        }
        i += 1;
    }
    Ok(string_of_chars(&kept))
}

/// The playlist that calls a translator to a counter.
pub fn build_audio_playlist(location: &str) -> (playlist: Vec<String>)
    ensures
        views(playlist@) == translator_playlist(location@),
{
    let chars = chars_of(location);
    let mut playlist: Vec<String> = Vec::new();
    playlist.push(String::from_str("/media/audio_stems/th/call_translator_at.mp3"));
    let mut i: usize = 0;
    while i < chars.len()
        invariant
            i <= chars.len(),
            chars@ == location@,
            playlist.len() == i + 1,
            playlist@[0]@ == "/media/audio_stems/th/call_translator_at.mp3"@,
            forall|k: int| 0 <= k < i ==> (#[trigger] playlist@[k + 1])@ == counter_digit_url(chars@[k]),
        decreases chars.len() - i,
    {
        let c = chars[i];
        let mut url = String::from_str("/media/audio_stems/th/number_00");
        push_char(&mut url, if char_is_ascii_digit(c) { c } else { '0' });
        url.append(".mp3");
        assert(url@ =~= counter_digit_url(c));
        playlist.push(url);
        i += 1;
    }
    proof {
        let expected = translator_playlist(location@);
        assert(views(playlist@).len() == expected.len());
        assert forall|k: int| 0 <= k < expected.len() implies views(playlist@)[k] == expected[k] by {
            if k > 0 {
                assert(playlist@[(k - 1) + 1]@ == counter_digit_url(chars@[k - 1]));
            }
        }
        assert(views(playlist@) =~= expected);
    }
    playlist
}

/// The seconds for which translator calls are still turned down.
pub fn cooldown_remaining_at(cooldown_seconds: u64, last: Option<u64>, now: u64) -> (r: u64)
    ensures
        r == translator_cooldown_remaining(cooldown_seconds, last, now),
{
    if cooldown_seconds == 0 {
        return 0;
    }
    match last {
        Some(previous) => {
            let elapsed: u128 = if now >= previous {
                (now - previous) as u128
            } else {
                0
            };
            let whole: u128 = (cooldown_seconds as u128) * (NANOS_PER_SECOND as u128);
            if elapsed >= whole {
                0
            } else {
                let left: u128 = (whole - elapsed) / (NANOS_PER_SECOND as u128);
                assert(left <= cooldown_seconds) by (nonlinear_arith)
                    requires
                        left == (whole - elapsed) / 1_000_000_000,
                        whole == cooldown_seconds * 1_000_000_000,
                        0 <= elapsed < whole,
                ;
                if left < 1 {
                    1
                } else {
                    left as u64
                }
            }
        },
        None => 0,
    }
}

/// The translator call and its cooldown.
#[derive(Debug, Clone)]
pub struct TranslatorService {
    config: AppConfig,
    last_trigger: Option<u64>,
}

impl TranslatorService {
    /// The clock reading of the last call that was accepted.
    pub closed spec fn last_trigger(&self) -> Option<u64> {
        self.last_trigger
    }

    /// The seconds that must pass between two calls.
    pub closed spec fn cooldown_seconds(&self) -> u64 {
        self.config.announcement_manual_trigger_cooldown_seconds
    }

    /// A service that has not been called yet.
    pub fn new(config: AppConfig) -> (service: Self)
        ensures
            service.last_trigger() is None,
            service.cooldown_seconds() == config.announcement_manual_trigger_cooldown_seconds,
    {
        TranslatorService { config, last_trigger: None }
    }

    /// The seconds for which calls are still turned down at `now`.
    pub fn cooldown_remaining_seconds(&self, now: u64) -> (r: u64)
        ensures
            r == translator_cooldown_remaining(self.cooldown_seconds(), self.last_trigger(), now),
    {
        cooldown_remaining_at(
            self.config.announcement_manual_trigger_cooldown_seconds,
            self.last_trigger,
            now,
        )
    }

    /// Where the cooldown stands at `now`.
    pub fn current_status(&self, now: u64) -> (status: TranslatorStatus)
        ensures
            status == (TranslatorStatus {
                cooldown_seconds: self.cooldown_seconds(),
                cooldown_remaining_seconds: translator_cooldown_remaining(
                    self.cooldown_seconds(),
                    self.last_trigger(),
                    now,
                ),
                cooldown_active: translator_cooldown_remaining(
                    self.cooldown_seconds(),
                    self.last_trigger(),
                    now,
                ) > 0,
            }),
    {
        let remaining = self.cooldown_remaining_seconds(now);
        TranslatorStatus {
            cooldown_seconds: self.config.announcement_manual_trigger_cooldown_seconds,
            cooldown_remaining_seconds: remaining,
            cooldown_active: remaining > 0,
        }
    }

    /// Calls a translator to the counter `location`, at the clock reading
    /// `now`.
    ///
    /// The counter is checked first, the cooldown second. A call that is
    /// accepted starts the cooldown anew and comes back with the event to
    /// publish; one that is turned down leaves the service as it was.
    pub fn trigger_call(&mut self, location: &str, now: u64) -> (r: Result<
        (TranslatorCallOutcome, AppEvent),
        TranslatorCallError,
    >)
        ensures
            final(self).cooldown_seconds() == old(self).cooldown_seconds(),
            match r {
                Ok((outcome, event)) => {
                    &&& sanitized_location(location@) == Ok::<Seq<char>, TranslatorCallErrorKind>(
                        outcome.location@,
                    )
                    &&& translator_cooldown_remaining(
                        old(self).cooldown_seconds(),
                        old(self).last_trigger(),
                        now,
                    ) == 0
                    &&& final(self).last_trigger() == Some(now)
                    &&& outcome.status == (TranslatorStatus {
                        cooldown_seconds: old(self).cooldown_seconds(),
                        cooldown_remaining_seconds: old(self).cooldown_seconds(),
                        cooldown_active: old(self).cooldown_seconds() > 0,
                    })
                    &&& event matches AppEvent::TranslatorCall {
                        location: place,
                        audio_urls,
                        cooldown_seconds,
                        cooldown_remaining_seconds,
                    }
                    &&& place@ == outcome.location@
                    &&& views(audio_urls@) == translator_playlist(outcome.location@)
                    &&& cooldown_seconds == old(self).cooldown_seconds()
                    &&& cooldown_remaining_seconds == old(self).cooldown_seconds()
                },
                Err(TranslatorCallError::MissingLocation) => {
                    &&& sanitized_location(location@) == Err::<Seq<char>, TranslatorCallErrorKind>(
                        TranslatorCallErrorKind::MissingLocation,
                    )
                    &&& final(self).last_trigger() == old(self).last_trigger()
                },
                Err(TranslatorCallError::InvalidLocation(value)) => {
                    &&& sanitized_location(location@) == Err::<Seq<char>, TranslatorCallErrorKind>(
                        TranslatorCallErrorKind::InvalidLocation,
                    )
                    &&& value@ == trimmed(location@)
                    &&& final(self).last_trigger() == old(self).last_trigger()
                },
                Err(TranslatorCallError::CooldownActive { remaining_seconds }) => {
                    &&& sanitized_location(location@) is Ok
                    &&& remaining_seconds > 0
                    &&& remaining_seconds == translator_cooldown_remaining(
                        old(self).cooldown_seconds(),
                        old(self).last_trigger(),
                        now,
                    )
                    &&& final(self).last_trigger() == old(self).last_trigger()
                },
            },
    {
        let sanitized = match sanitize_location(location) {
            Ok(s) => s,
            Err(e) => {
                return Err(e);
            },
        };
        let cooldown_seconds = self.config.announcement_manual_trigger_cooldown_seconds;
        let remaining = self.cooldown_remaining_seconds(now);
        if remaining > 0 {
            return Err(TranslatorCallError::CooldownActive { remaining_seconds: remaining });
        }
        self.last_trigger = Some(now);
        let playlist = build_audio_playlist(sanitized.as_str());
        let event = AppEvent::TranslatorCall {
            location: sanitized.clone(),
            audio_urls: playlist,
            cooldown_seconds,
            cooldown_remaining_seconds: cooldown_seconds,
        };
        let status = TranslatorStatus {
            cooldown_seconds,
            cooldown_remaining_seconds: cooldown_seconds,
            cooldown_active: cooldown_seconds > 0,
        };
        Ok((TranslatorCallOutcome { location: sanitized, status }, event))
    }
}

} // verus!
