//! Server-sent events: under which name each event of the application goes
//! out to the displays.

use vstd::prelude::*;
use crate::AppEvent;

verus! {

/// Names the events of the application for the displays.
#[derive(Debug, Clone, Copy, PartialEq, Eq, Structural)]
pub struct SSEManager {}

/// The name under which an event goes out.
pub open spec fn event_name_of(event: AppEvent) -> Seq<char> {
    match event {
        AppEvent::QueueUpdate(_) => "queue_update"@,
        AppEvent::AnnouncementStatus(_) => "announcement_status"@,
        AppEvent::TTSComplete { .. } => "tts_complete"@,
        AppEvent::TranslatorCall { .. } => "translator_call"@,
    }
}

impl SSEManager {
    /// A manager. It keeps nothing.
    pub fn new() -> (manager: Self)
        ensures
            manager == (SSEManager {  }),
    {
        SSEManager {  }
    }

    /// The name under which an event goes out.
    pub fn event_name(event: &AppEvent) -> (name: &'static str)
        ensures
            name@ == event_name_of(*event),
    {
        match event {
            AppEvent::QueueUpdate(_) => "queue_update",
            AppEvent::AnnouncementStatus(_) => "announcement_status",
            AppEvent::TTSComplete { .. } => "tts_complete",
            AppEvent::TranslatorCall { .. } => "translator_call",
        }
    }
}

} // verus!
