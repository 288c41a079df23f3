//! Backend logic of a queue-calling board: the call queue, the announcement
//! slots and, above all, the pipeline that turns a call into a playable audio
//! URL (cache lookup, online speech synthesis, pre-recorded fallback).
//!
//! The library computes and decides. Reading the disk, talking to the network
//! and waiting are left to the program around it, which does what the library
//! asks for and reports back what happened. The few things that the library
//! takes from outside itself (the clock, a random user-agent string, URL
//! encoding, Unicode character classes) stand behind small functions whose
//! contracts are stated but not proved.

pub mod announcements;
pub mod api;
pub mod cache;
pub mod config;
pub mod fallback;
pub mod fetch;
pub mod health;
pub mod identity;
pub mod languages;
pub mod online;
pub mod queue;
pub mod segment;
pub mod service;
pub mod sse;
pub mod task;
pub mod text;
pub mod translator;
pub mod tts;

pub use config::AppConfig;
pub use queue::{Call, QueueState};
pub use service::QueueService;

use vstd::prelude::*;

verus! {

/// What the parts of the application tell each other, and the displays, over
/// the event bus.
#[derive(Debug, Clone, PartialEq)]
pub enum AppEvent {
    /// The queue has changed; this is how it stands.
    QueueUpdate(crate::queue::QueueState),
    /// The announcements have changed; this is how they stand.
    AnnouncementStatus(crate::announcements::AnnouncementStatus),
    /// The audio for a call is ready.
    TTSComplete {
        /// The call.
        id: String,
        /// The counter that serves it.
        location: String,
        /// The language that the audio was asked for in.
        lang: String,
        /// What to play: one URL for audio from the cache or from the
        /// synthesis service, several, to be played one after the other, for
        /// an announcement put together from pre-recorded fragments.
        audio_urls: Vec<String>,
    },
    /// A translator is called to a counter.
    TranslatorCall {
        /// The counter.
        location: String,
        /// What to play, one after the other.
        audio_urls: Vec<String>,
        /// Seconds that must pass between two calls.
        cooldown_seconds: u64,
        /// Seconds until the next call is accepted.
        cooldown_remaining_seconds: u64,
    },
}

} // verus!
