//! The queue as the routes use it: the queue itself, and what follows from
//! each change of it, namely the update to tell the displays and the speech
//! to ask for.

use vstd::prelude::*;
use crate::config::{AppConfig, ordered_language_codes};
use crate::queue::{
    Call, CallView, QueueManager, QueueState, QueueView, Timestamp, fresh_call, maybe_view,
    call_views, current_timestamp,
};
use crate::segment::views;
use crate::tts::{SynthesisRequest, TTSManager, announcement_chunks};
use crate::AppEvent;

verus! {

/// What can go wrong in the queue service.
#[derive(Debug, Clone, Copy, PartialEq, Eq)]
pub enum QueueError {
    /// The queue did not hand back the call that the named operation had
    /// just put into it.
    InconsistentState(&'static str),
}

/// The words of a `QueueError`.
pub open spec fn queue_error_text(err: QueueError) -> Seq<char> {
    match err {
        QueueError::InconsistentState(operation) => "Queue state became inconsistent while performing '"@
            + operation@ + "'."@,
    }
}

impl QueueError {
    /// The error in words.
    pub fn message(&self) -> (text: String)
        ensures
            text@ == queue_error_text(*self),
    {
        match self {
            QueueError::InconsistentState(operation) => {
                let mut text = crate::text::concat(
                    "Queue state became inconsistent while performing '",
                    operation,
                );
                text.append("'.");
                text
            },
        }
    }
}

/// Whether there is a first configured language and the speech subsystem
/// supports it.
pub open spec fn primary_language_is_supported(
    codes: Seq<Seq<char>>,
    supported: Map<Seq<char>, Seq<char>>,
) -> bool {
    codes.len() > 0 && supported.dom().contains(codes[0])
}

/// What follows from a change of the queue.
#[derive(Debug)]
pub struct QueueChange {
    /// The call that the change was about, if there was one.
    pub call: Option<Call>,
    /// The event that tells the displays how the queue stands now.
    pub update: AppEvent,
    /// The speech to ask for, if any.
    pub synthesis: Option<SynthesisRequest>,
}

/// Whether an event reports the given state of the queue.
pub open spec fn is_queue_update(event: AppEvent, queue: QueueView) -> bool {
    event matches AppEvent::QueueUpdate(state) && maybe_view(state.current_call) == queue.current
        && call_views(state.completed_history@) == queue.completed && call_views(
        state.skipped_history@,
    ) == queue.skipped
}

/// Whether a result reports a change that was about the call `call` and left
/// the queue as `queue`.
pub open spec fn reports_call(
    r: Result<QueueChange, QueueError>,
    call: CallView,
    queue: QueueView,
) -> bool {
    r matches Ok(change) && maybe_view(change.call) == Some(call) && is_queue_update(
        change.update,
        queue,
    )
}

/// The queue, with the settings that its changes are worked out from.
#[derive(Debug)]
pub struct QueueService {
    config: AppConfig,
    manager: QueueManager,
}

impl QueueService {
    /// The queue.
    pub closed spec fn queue(&self) -> QueueView {
        self.manager@
    }

    /// The settings.
    pub closed spec fn settings(&self) -> AppConfig {
        self.config
    }

    /// A service with an empty queue, bounded as the settings say.
    pub fn new(config: AppConfig) -> (service: Self)
        ensures
            service.settings() == config,
            service.queue() == (QueueView {
                current: None,
                completed: Seq::empty(),
                skipped: Seq::empty(),
                max_completed: config.max_history_size as nat,
                max_skipped: config.max_skipped_history_size as nat,
            }),
    {
        let manager = QueueManager::new(config.max_history_size, config.max_skipped_history_size);
        QueueService { config, manager }
    }

    /// The request for the speech of a call: in the first of the configured
    /// languages, where there is one and the speech subsystem supports it. A
    /// request that the speech subsystem turns down is dropped.
    pub fn trigger_tts_for_call(&self, tts: &TTSManager, call: &Call) -> (r: Option<
        SynthesisRequest,
    >)
        ensures
            r is Some <==> primary_language_is_supported(
                ordered_language_codes(self.settings().tts_supported_languages@),
                tts.supported(),
            ),
            r matches Some(request) ==> {
                let primary = ordered_language_codes(self.settings().tts_supported_languages@)[0];
                &&& request.call_id@ == call.id@
                &&& request.location@ == call.location@
                &&& request.language@ == primary
                &&& views(request.text_parts@) == announcement_chunks(
                    call.id@,
                    call.location@,
                    primary,
                )
            },
    {
        let ordered_languages = self.config.ordered_supported_language_codes();
        if ordered_languages.len() == 0 {
            return None;
        }
        assert(views(ordered_languages@)[0] == ordered_languages@[0]@);
        let primary_lang = ordered_languages[0].clone();
        match tts.trigger_tts_generation(call.id.clone(), call.location.clone(), primary_lang) {
            Ok(request) => Some(request),
            Err(_) => None,
        }
    }

    /// The event that tells the displays how the queue stands.
    pub fn broadcast_queue_update(&self) -> (event: AppEvent)
        ensures
            is_queue_update(event, self.queue()),
    {
        AppEvent::QueueUpdate(self.manager.snapshot())
    }

    /// Adds a call, or calls it again, at the time `now`; see
    /// `QueueManager::add_call_at`. The change names the call, the update
    /// for the displays, and the speech to ask for.
    pub fn add_call_at(&mut self, tts: &TTSManager, original_id: &str, location: &str, now: Timestamp) -> (r:
        Result<QueueChange, QueueError>)
        ensures
            final(self).settings() == old(self).settings(),
            final(self).queue() == old(self).queue().with_call_added(original_id@, location@, now),
            reports_call(r, fresh_call(original_id@, location@, now), final(self).queue()),
    {
        let added = match self.manager.add_call_at(
            String::from_str(original_id),
            String::from_str(location),
            now,
        ) {
            Some(call) => call.clone(),
            None => {
                return Err(QueueError::InconsistentState("add_call"));
            },
        };
        let update = self.broadcast_queue_update();
        let synthesis = self.trigger_tts_for_call(tts, &added);
        Ok(QueueChange { call: Some(added), update, synthesis })
    }

    /// Adds a call, or calls it again, at the time the system clock shows.
    pub fn add_call(&mut self, tts: &TTSManager, original_id: &str, location: &str) -> (r: Result<
        QueueChange,
        QueueError,
    >)
        ensures
            final(self).settings() == old(self).settings(),
            exists|now: Timestamp|
                final(self).queue() == #[trigger] old(self).queue().with_call_added(
                    original_id@,
                    location@,
                    now,
                ) && reports_call(
                    r,
                    fresh_call(original_id@, location@, now),
                    final(self).queue(),
                ),
    {
        let now = current_timestamp();
        self.add_call_at(tts, original_id, location, now)
    }

    /// Skips the current call at the time the system clock shows.
    pub fn skip_current_call(&mut self) -> (change: QueueChange)
        ensures
            final(self).settings() == old(self).settings(),
            exists|now: Timestamp|
                final(self).queue() == #[trigger] old(self).queue().with_current_skipped(now),
            is_queue_update(change.update, final(self).queue()),
            change.synthesis is None,
            change.call is Some <==> old(self).queue().current is Some,
    {
        let now = current_timestamp();
        self.skip_current_call_at(now)
    }

    /// Completes the current call at the time the system clock shows.
    pub fn complete_current_call(&mut self) -> (change: QueueChange)
        ensures
            final(self).settings() == old(self).settings(),
            exists|now: Timestamp|
                final(self).queue() == #[trigger] old(self).queue().with_current_completed(now),
            is_queue_update(change.update, final(self).queue()),
            change.synthesis is None,
            change.call is Some <==> old(self).queue().current is Some,
    {
        let now = current_timestamp();
        self.complete_current_call_at(now)
    }

    /// Puts a call among the skipped ones at the time the system clock shows.
    pub fn force_skip_call(&mut self, original_id: &str, location: &str) -> (r: Result<
        QueueChange,
        QueueError,
    >)
        ensures
            final(self).settings() == old(self).settings(),
            exists|now: Timestamp|
                final(self).queue() == #[trigger] old(self).queue().with_call_skipped(
                    original_id@,
                    location@,
                    now,
                ) && reports_call(
                    r,
                    fresh_call(original_id@, location@, now),
                    final(self).queue(),
                ),
            r matches Ok(change) && change.synthesis is None,
    {
        let now = current_timestamp();
        self.force_skip_call_at(original_id, location, now)
    }

    /// Skips the current call at the time `now`; see
    /// `QueueManager::skip_current_call_at`.
    pub fn skip_current_call_at(&mut self, now: Timestamp) -> (change: QueueChange)
        ensures
            final(self).settings() == old(self).settings(),
            final(self).queue() == old(self).queue().with_current_skipped(now),
            maybe_view(change.call) == match old(self).queue().current {
                Some(call) => Some(CallView { timestamp: now, ..call }),
                None => None,
            },
            is_queue_update(change.update, final(self).queue()),
            change.synthesis is None,
    {
        let call = self.manager.skip_current_call_at(now);
        let update = self.broadcast_queue_update();
        QueueChange { call, update, synthesis: None }
    }

    /// Completes the current call at the time `now`; see
    /// `QueueManager::complete_current_call_at`.
    pub fn complete_current_call_at(&mut self, now: Timestamp) -> (change: QueueChange)
        ensures
            final(self).settings() == old(self).settings(),
            final(self).queue() == old(self).queue().with_current_completed(now),
            maybe_view(change.call) == match old(self).queue().current {
                Some(call) => Some(CallView { timestamp: now, ..call }),
                None => None,
            },
            is_queue_update(change.update, final(self).queue()),
            change.synthesis is None,
    {
        let call = self.manager.complete_current_call_at(now);
        let update = self.broadcast_queue_update();
        QueueChange { call, update, synthesis: None }
    }

    /// Puts a call among the skipped ones at the time `now`; see
    /// `QueueManager::add_to_skipped_directly_at`.
    pub fn force_skip_call_at(&mut self, original_id: &str, location: &str, now: Timestamp) -> (r:
        Result<QueueChange, QueueError>)
        ensures
            final(self).settings() == old(self).settings(),
            final(self).queue() == old(self).queue().with_call_skipped(original_id@, location@, now),
            reports_call(r, fresh_call(original_id@, location@, now), final(self).queue()),
            r matches Ok(change) && change.synthesis is None,
    {
        let skipped = match self.manager.add_to_skipped_directly_at(
            String::from_str(original_id),
            String::from_str(location),
            now,
        ) {
            Some(call) => call,
            None => {
                return Err(QueueError::InconsistentState("force_skip_call"));
            },
        };
        let update = self.broadcast_queue_update();
        Ok(QueueChange { call: Some(skipped), update, synthesis: None })
    }

    /// A copy of the queue for its consumers.
    pub fn snapshot(&self) -> (state: QueueState)
        ensures
            maybe_view(state.current_call) == self.queue().current,
            call_views(state.completed_history@) == self.queue().completed,
            call_views(state.skipped_history@) == self.queue().skipped,
    {
        self.manager.snapshot()
    }
}

} // verus!
