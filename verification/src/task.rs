//! The work on one request for speech, step by step: from the first look at
//! the disk to the event that tells the displays what to play.
//!
//! The caller probes the disk and runs the synthesis service; each step here
//! takes what the caller reports and says what is to be done next.

use vstd::prelude::*;
use crate::cache::{
    get_multi_language_cache_file_path, get_sanitized_call_filename, get_web_accessible_audio_url,
    join_path, joined_path, call_filename, multi_language_cache_path, web_accessible_url,
    url_of_segments, path_pieces, is_plain_piece, is_dot, law_cache_file_has_a_url,
    lemma_call_filename_is_a_piece, lemma_stripped_prefix_of_file, lemma_web_url_of_plain_pieces,
    lemma_no_pieces_of_nothing,
};
use crate::text::join_with;
use crate::config::{AppConfig, ordered_language_codes};
use crate::fallback::stem_urls;
use crate::online::OnlineOutcome;
use crate::segment::views;
use crate::AppEvent;
use crate::tts::{
    completion, fallback_to_stem_audio, is_completion, SynthesisRequest,
    ONLINE_TTS_TIMEOUT_SECONDS,
};

verus! {

/// Where the work on a request stands.
#[derive(Debug, Clone, Copy, PartialEq, Eq, Structural)]
pub enum TaskState {
    /// Nothing was done yet.
    Created,
    /// The file made ahead of time is being looked for.
    ProbingPregenerated,
    /// The cache file is being looked for.
    ProbingCache,
    /// The synthesis service is at work.
    Online,
    /// The work is over.
    Done,
}

/// What the caller reports.
#[derive(Debug, Clone, PartialEq, Eq)]
pub enum TaskEvent {
    /// The work may begin.
    Started,
    /// The file that was to be looked for exists, or does not.
    Probed(bool),
    /// The run of the synthesis service has ended.
    OnlineEnded(OnlineOutcome),
}

/// What the caller is to do next.
#[derive(Debug, Clone, PartialEq)]
pub enum TaskAction {
    /// Find out whether a file exists at this path, and report `Probed`.
    Probe(String),
    /// Run the synthesis service for these languages, give it no more than
    /// this many seconds in all, and report `OnlineEnded`.
    RunOnline { languages: Vec<String>, timeout_seconds: u64 },
    /// Publish this event; the work is over.
    Publish(AppEvent),
    /// The work is over and there is nothing to publish.
    Stop,
    /// The report did not fit the state of the work; nothing has changed.
    Ignore,
}

/// An action as contracts read it.
pub enum ActionView {
    Probe(Seq<char>),
    RunOnline { languages: Seq<Seq<char>>, timeout_seconds: u64 },
    /// Publish the completion of the request with these URLs.
    Publish(Seq<Seq<char>>),
    Stop,
    Ignore,
}

/// A report as contracts read it.
pub enum EventView {
    Started,
    Probed(bool),
    OnlineSucceeded(Seq<char>),
    OnlineFailed,
}

/// The directory, below the serving directory, of the files made ahead of
/// time.
pub open spec fn pregenerated_dir() -> Seq<char> {
    "media/audio_cache/multi"@
}

/// The path at which the file made ahead of time for a call would lie.
pub open spec fn pregenerated_path(config: AppConfig, id: Seq<char>, location: Seq<char>) -> Seq<
    char,
> {
    joined_path(joined_path(config.serve_dir_path@, pregenerated_dir()), call_filename(id, location))
}

/// The action that publishes one URL, or stops where there is none.
pub open spec fn publish_one(url: Option<Seq<char>>) -> ActionView {
    match url {
        Some(u) => ActionView::Publish(seq![u]),
        None => ActionView::Stop,
    }
}

/// The action that falls back to the pre-recorded fragments.
pub open spec fn fallback_action(config: AppConfig, id: Seq<char>, location: Seq<char>) -> ActionView {
    let urls = stem_urls(id, location, ordered_language_codes(config.tts_supported_languages@));
    if urls.len() == 0 {
        ActionView::Stop
    } else {
        ActionView::Publish(urls)
    }
}

/// One step of the work on a request: the state after the report, and the
/// action that answers it.
///
/// The file made ahead of time is looked for first and the cache file second,
/// whatever the settings say of languages; either one, where it exists, is
/// what gets played. The synthesis service is turned to only where both are
/// missing and at least one language is configured. Where no language is
/// configured, or the service fails or takes too long, the pre-recorded
/// fragments take over. A report that does not fit the state is ignored.
pub open spec fn task_step(
    config: AppConfig,
    id: Seq<char>,
    location: Seq<char>,
    state: TaskState,
    event: EventView,
) -> (TaskState, ActionView) {
    let languages = ordered_language_codes(config.tts_supported_languages@);
    match (state, event) {
        (TaskState::Created, EventView::Started) => (
            TaskState::ProbingPregenerated,
            ActionView::Probe(pregenerated_path(config, id, location)),
        ),
        (TaskState::ProbingPregenerated, EventView::Probed(true)) => (
            TaskState::Done,
            publish_one(
                web_accessible_url(
                    pregenerated_path(config, id, location),
                    config.serve_dir_path@,
                    Seq::<char>::empty(),
                ),
            ),
        ),
        (TaskState::ProbingPregenerated, EventView::Probed(false)) => (
            TaskState::ProbingCache,
            ActionView::Probe(multi_language_cache_path(config.gtts_cache_base_path@, id, location)),
        ),
        (TaskState::ProbingCache, EventView::Probed(true)) => (
            TaskState::Done,
            publish_one(
                web_accessible_url(
                    multi_language_cache_path(config.gtts_cache_base_path@, id, location),
                    config.gtts_cache_base_path@,
                    config.tts_cache_web_path@,
                ),
            ),
        ),
        (TaskState::ProbingCache, EventView::Probed(false)) => if languages.len() == 0 {
            (TaskState::Done, fallback_action(config, id, location))
        } else {
            (
                TaskState::Online,
                ActionView::RunOnline { languages, timeout_seconds: ONLINE_TTS_TIMEOUT_SECONDS },
            )
        },
        (TaskState::Online, EventView::OnlineSucceeded(url)) => (
            TaskState::Done,
            ActionView::Publish(seq![url]),
        ),
        (TaskState::Online, EventView::OnlineFailed) => (
            TaskState::Done,
            fallback_action(config, id, location),
        ),
        _ => (state, ActionView::Ignore),
    }
}

/// A report, read for contracts. A run that failed and one that timed out
/// count alike.
pub open spec fn event_view(event: TaskEvent) -> EventView {
    match event {
        TaskEvent::Started => EventView::Started,
        TaskEvent::Probed(exists) => EventView::Probed(exists),
        TaskEvent::OnlineEnded(OnlineOutcome::Succeeded { audio_url }) => EventView::OnlineSucceeded(
            audio_url@,
        ),
        TaskEvent::OnlineEnded(_) => EventView::OnlineFailed,
    }
}

/// Whether an action is the one that contracts describe, for the request of
/// the given call and language.
pub open spec fn action_is(
    action: TaskAction,
    expected: ActionView,
    id: Seq<char>,
    location: Seq<char>,
    lang: Seq<char>,
) -> bool {
    match expected {
        ActionView::Probe(path) => action matches TaskAction::Probe(p) && p@ == path,
        ActionView::RunOnline { languages, timeout_seconds } => action matches TaskAction::RunOnline {
            languages: l,
            timeout_seconds: t,
        } && views(l@) == languages && t == timeout_seconds,
        ActionView::Publish(urls) => action matches TaskAction::Publish(event) && is_completion(
            event,
            id,
            location,
            lang,
            urls,
        ),
        ActionView::Stop => action is Stop,
        ActionView::Ignore => action is Ignore,
    }
}

/// The work on one request.
#[derive(Debug)]
pub struct SynthesisTask {
    request: SynthesisRequest,
    state: TaskState,
}

impl SynthesisTask {
    /// The call of the request.
    pub closed spec fn call_id(&self) -> Seq<char> {
        self.request.call_id@
    }

    /// The counter of the request.
    pub closed spec fn location(&self) -> Seq<char> {
        self.request.location@
    }

    /// The language of the request.
    pub closed spec fn language(&self) -> Seq<char> {
        self.request.language@
    }

    /// Where the work stands.
    pub closed spec fn state(&self) -> TaskState {
        self.state
    }

    /// The work on a request, before its first step.
    pub fn new(request: SynthesisRequest) -> (task: Self)
        ensures
            task.call_id() == request.call_id@,
            task.location() == request.location@,
            task.language() == request.language@,
            task.state() == TaskState::Created,
    {
        SynthesisTask { request, state: TaskState::Created }
    }

    /// Whether the work is over.
    pub fn is_done(&self) -> (r: bool)
        ensures
            r == (self.state() == TaskState::Done),
    {
        match self.state {
            TaskState::Done => true,
            _ => false,
        }
    }

    /// The event that completes the request with one URL, or a stop where
    /// there is no URL.
    fn publish_url(&self, url: Option<String>) -> (action: TaskAction)
        ensures
            action_is(
                action,
                publish_one(
                    match url {
                        Some(u) => Some(u@),
                        None => None,
                    },
                ),
                self.call_id(),
                self.location(),
                self.language(),
            ),
    {
        match url {
            Some(audio_url) => {
                let mut audio_urls: Vec<String> = Vec::new();
                audio_urls.push(audio_url);
                assert(views(audio_urls@) =~= seq![audio_url@]);
                TaskAction::Publish(
                    completion(
                        self.request.call_id.as_str(),
                        self.request.location.as_str(),
                        self.request.language.as_str(),
                        audio_urls,
                    ),
                )
            },
            None => TaskAction::Stop,
        }
    }

    /// The fallback as an action.
    fn fall_back(&self, config: &AppConfig) -> (action: TaskAction)
        ensures
            action_is(
                action,
                fallback_action(*config, self.call_id(), self.location()),
                self.call_id(),
                self.location(),
                self.language(),
            ),
    {
        match fallback_to_stem_audio(
            config,
            self.request.call_id.as_str(),
            self.request.location.as_str(),
            self.request.language.as_str(),
        ) {
            Some(event) => TaskAction::Publish(event),
            None => TaskAction::Stop,
        }
    }

    /// Takes the work on the request one step further: given what the caller
    /// reports, says what the caller is to do next.
    ///
    /// See `task_step` for the steps. The caller starts with `Started`, does
    /// what each action asks, and reports back until the action is `Publish`
    /// or `Stop`.
    pub fn perform_tts_task_with_fallback(&mut self, config: &AppConfig, event: TaskEvent) -> (action:
        TaskAction)
        ensures
            final(self).call_id() == old(self).call_id(),
            final(self).location() == old(self).location(),
            final(self).language() == old(self).language(),
            final(self).state() == task_step(
                *config,
                old(self).call_id(),
                old(self).location(),
                old(self).state(),
                event_view(event),
            ).0,
            action_is(
                action,
                task_step(
                    *config,
                    old(self).call_id(),
                    old(self).location(),
                    old(self).state(),
                    event_view(event),
                ).1,
                old(self).call_id(),
                old(self).location(),
                old(self).language(),
            ),
    {
        let id = self.request.call_id.as_str();
        let location = self.request.location.as_str();
        match (self.state, event) {
            (TaskState::Created, TaskEvent::Started) => {
                let pregen_fs_base_path = join_path(
                    config.serve_dir_path.as_str(),
                    "media/audio_cache/multi",
                );
                let call_filename = get_sanitized_call_filename(id, location);
                let pregen_file_path = join_path(
                    pregen_fs_base_path.as_str(),
                    call_filename.as_str(),
                );
                self.state = TaskState::ProbingPregenerated;
                TaskAction::Probe(pregen_file_path)
            },
            (TaskState::ProbingPregenerated, TaskEvent::Probed(true)) => {
                let pregen_fs_base_path = join_path(
                    config.serve_dir_path.as_str(),
                    "media/audio_cache/multi",
                );
                let call_filename = get_sanitized_call_filename(id, location);
                let pregen_file_path = join_path(
                    pregen_fs_base_path.as_str(),
                    call_filename.as_str(),
                );
                let url = get_web_accessible_audio_url(
                    pregen_file_path.as_str(),
                    config.serve_dir_path.as_str(),
                    config.serve_dir_path.as_str(),
                    "",
                );
                proof {
                    reveal_strlit("");
                    assert(""@ =~= Seq::<char>::empty());
                }
                let action = self.publish_url(url);
                self.state = TaskState::Done;
                action
            },
            (TaskState::ProbingPregenerated, TaskEvent::Probed(false)) => {
                let cache_file_path = get_multi_language_cache_file_path(
                    config.gtts_cache_base_path.as_str(),
                    id,
                    location,
                );
                self.state = TaskState::ProbingCache;
                TaskAction::Probe(cache_file_path)
            },
            (TaskState::ProbingCache, TaskEvent::Probed(true)) => {
                let cache_file_path = get_multi_language_cache_file_path(
                    config.gtts_cache_base_path.as_str(),
                    id,
                    location,
                );
                let url = get_web_accessible_audio_url(
                    cache_file_path.as_str(),
                    config.serve_dir_path.as_str(),
                    config.gtts_cache_base_path.as_str(),
                    config.tts_cache_web_path.as_str(),
                );
                let action = self.publish_url(url);
                self.state = TaskState::Done;
                action
            },
            (TaskState::ProbingCache, TaskEvent::Probed(false)) => {
                let languages = config.ordered_supported_language_codes();
                if languages.len() == 0 {
                    let action = self.fall_back(config);
                    self.state = TaskState::Done;
                    action
                } else {
                    self.state = TaskState::Online;
                    TaskAction::RunOnline { languages, timeout_seconds: ONLINE_TTS_TIMEOUT_SECONDS }
                }
            },
            (TaskState::Online, TaskEvent::OnlineEnded(OnlineOutcome::Succeeded { audio_url })) => {
                let action = self.publish_url(Some(audio_url));
                self.state = TaskState::Done;
                action
            },
            (TaskState::Online, TaskEvent::OnlineEnded(_)) => {
                let action = self.fall_back(config);
                self.state = TaskState::Done;
                action
            },
            _ => TaskAction::Ignore,
        }
    }
}

/// Once the work on a request is over it stays over: whatever is reported,
/// nothing is asked for and nothing is published again. A request is answered
/// by at most one event.
pub proof fn law_done_is_final(
    config: AppConfig,
    id: Seq<char>,
    location: Seq<char>,
    event: EventView,
)
    ensures
        task_step(config, id, location, TaskState::Done, event) == (
            TaskState::Done,
            ActionView::Ignore,
        ),
{
}

/// The work is over exactly after a step that publishes or stops.
pub proof fn law_publication_ends_the_work(
    config: AppConfig,
    id: Seq<char>,
    location: Seq<char>,
    state: TaskState,
    event: EventView,
)
    requires
        state != TaskState::Done,
    ensures
        ({
            let (next, action) = task_step(config, id, location, state, event);
            next == TaskState::Done <==> (action is Publish || action is Stop)
        }),
{
}

/// Whatever is published has something to play: one URL where the audio
/// comes from a file or from the synthesis service, and at least one where it
/// is put together from pre-recorded fragments.
pub proof fn law_publication_has_urls(
    config: AppConfig,
    id: Seq<char>,
    location: Seq<char>,
    state: TaskState,
    event: EventView,
)
    ensures
        task_step(config, id, location, state, event).1 matches ActionView::Publish(urls) ==> {
            &&& urls.len() >= 1
            &&& event is Probed || event is OnlineSucceeded ==> urls.len() == 1
        },
{
}

/// Both caches are looked into before anything else is tried, and neither
/// look depends on the languages that are configured: the work begins with
/// the file made ahead of time, goes on to the cache file where that one is
/// missing, and a cache file that exists is what gets published.
pub proof fn law_cache_probes_come_first(config: AppConfig, id: Seq<char>, location: Seq<char>)
    ensures
        task_step(config, id, location, TaskState::Created, EventView::Started) == (
            TaskState::ProbingPregenerated,
            ActionView::Probe(pregenerated_path(config, id, location)),
        ),
        task_step(config, id, location, TaskState::ProbingPregenerated, EventView::Probed(false))
            == (
            TaskState::ProbingCache,
            ActionView::Probe(multi_language_cache_path(config.gtts_cache_base_path@, id, location)),
        ),
        task_step(config, id, location, TaskState::ProbingCache, EventView::Probed(true)) == (
            TaskState::Done,
            publish_one(
                web_accessible_url(
                    multi_language_cache_path(config.gtts_cache_base_path@, id, location),
                    config.gtts_cache_base_path@,
                    config.tts_cache_web_path@,
                ),
            ),
        ),
{
}

/// The URL at which the file made ahead of time for a call is served.
pub open spec fn pregenerated_url(id: Seq<char>, location: Seq<char>) -> Seq<char> {
    url_of_segments(seq!["media"@, "audio_cache"@, "multi"@, call_filename(id, location)])
}

/// The directory of the files made ahead of time reads as its three pieces.
proof fn lemma_pregenerated_dir_pieces()
    ensures
        pregenerated_dir() == join_with(seq!["media"@, "audio_cache"@, "multi"@], '/'),
        is_plain_piece("media"@),
        is_plain_piece("audio_cache"@),
        is_plain_piece("multi"@),
        !is_dot("media"@),
        !is_dot("audio_cache"@),
        !is_dot("multi"@),
{
    reveal_strlit("media/audio_cache/multi");
    reveal_strlit("media");
    reveal_strlit("audio_cache");
    reveal_strlit("multi");
    let three = seq!["media"@, "audio_cache"@, "multi"@];
    let two = seq!["media"@, "audio_cache"@];
    assert(three.drop_last() =~= two);
    assert(two.drop_last() =~= seq!["media"@]);
    assert(join_with(seq!["media"@], '/') == "media"@);
    assert(join_with(two, '/') == "media"@.push('/') + "audio_cache"@);
    assert(join_with(three, '/') == join_with(two, '/').push('/') + "multi"@);
    assert(pregenerated_dir() =~= join_with(three, '/'));
}

/// A file that was made ahead of time for a call always has a URL, the same
/// whatever the settings are.
pub proof fn law_pregenerated_file_has_a_url(
    config: AppConfig,
    id: Seq<char>,
    location: Seq<char>,
)
    ensures
        web_accessible_url(
            pregenerated_path(config, id, location),
            config.serve_dir_path@,
            Seq::<char>::empty(),
        ) == Some(pregenerated_url(id, location)),
{
    let name = call_filename(id, location);
    let three = seq!["media"@, "audio_cache"@, "multi"@];
    let four = seq!["media"@, "audio_cache"@, "multi"@, name];
    lemma_pregenerated_dir_pieces();
    lemma_call_filename_is_a_piece(id, location);
    assert(three.push(name) =~= four);
    lemma_stripped_prefix_of_file(config.serve_dir_path@, three, name);
    lemma_web_url_of_plain_pieces(four, Seq::<char>::empty());
    lemma_no_pieces_of_nothing();
    assert(path_pieces(Seq::<char>::empty()) + four =~= four);
}

/// The URL at which the cache file of a call is served: the mount point of
/// the cache, then `multi`, then the file name of the call.
pub open spec fn cache_url(config: AppConfig, id: Seq<char>, location: Seq<char>) -> Seq<char> {
    url_of_segments(
        path_pieces(config.tts_cache_web_path@) + seq!["multi"@, call_filename(id, location)],
    )
}

/// A call whose audio is in the cache is answered from the cache. Whatever
/// the settings are, where no file was made ahead of time and the cache file
/// exists, the work takes three steps and ends with the publication of
/// exactly one URL, that of the cache file. None of the three steps asks for
/// the synthesis service.
pub proof fn law_cached_audio_is_published(config: AppConfig, id: Seq<char>, location: Seq<char>)
    ensures
        ({
            let first = task_step(config, id, location, TaskState::Created, EventView::Started);
            let second = task_step(config, id, location, first.0, EventView::Probed(false));
            let third = task_step(config, id, location, second.0, EventView::Probed(true));
            &&& first.1 == ActionView::Probe(pregenerated_path(config, id, location))
            &&& second.1 == ActionView::Probe(
                multi_language_cache_path(config.gtts_cache_base_path@, id, location),
            )
            &&& third == (
                TaskState::Done,
                ActionView::Publish(seq![cache_url(config, id, location)]),
            )
        }),
{
    law_cache_file_has_a_url(
        config.gtts_cache_base_path@,
        id,
        location,
        config.tts_cache_web_path@,
    );
}

/// A call for which a file was made ahead of time is answered with that
/// file. Whatever the settings are, the work takes two steps and ends with
/// the publication of exactly one URL, that of the file; neither the cache
/// nor the synthesis service is asked for.
pub proof fn law_pregenerated_audio_is_published(
    config: AppConfig,
    id: Seq<char>,
    location: Seq<char>,
)
    ensures
        ({
            let first = task_step(config, id, location, TaskState::Created, EventView::Started);
            let second = task_step(config, id, location, first.0, EventView::Probed(true));
            &&& first.1 == ActionView::Probe(pregenerated_path(config, id, location))
            &&& second == (
                TaskState::Done,
                ActionView::Publish(seq![pregenerated_url(id, location)]),
            )
        }),
{
    law_pregenerated_file_has_a_url(config, id, location);
}

/// The synthesis service is turned to only after both the file made ahead of
/// time and the cache file were found missing, and only where a language is
/// configured: a file that exists is played without a single request to the
/// service.
pub proof fn law_online_only_after_both_probes(
    config: AppConfig,
    id: Seq<char>,
    location: Seq<char>,
    state: TaskState,
    event: EventView,
)
    ensures
        task_step(config, id, location, state, event).1 is RunOnline ==> state
            == TaskState::ProbingCache && event == EventView::Probed(false)
            && ordered_language_codes(config.tts_supported_languages@).len() > 0,
        task_step(config, id, location, state, event).0 == TaskState::ProbingCache ==> state
            == TaskState::ProbingCache || (state == TaskState::ProbingPregenerated && event
            == EventView::Probed(false)),
        event == EventView::Probed(true) && state != TaskState::Online ==> !(task_step(
            config,
            id,
            location,
            state,
            event,
        ).1 is RunOnline) && task_step(config, id, location, state, event).0
            != TaskState::Online,
{
}

/// A run of the synthesis service that fails, for whatever reason, is never
/// the end of a request: with at least one language configured, the
/// pre-recorded fragments are published in its place.
pub proof fn law_failed_online_falls_back(config: AppConfig, id: Seq<char>, location: Seq<char>)
    requires
        ordered_language_codes(config.tts_supported_languages@).len() > 0,
    ensures
        task_step(config, id, location, TaskState::Online, EventView::OnlineFailed) == (
            TaskState::Done,
            ActionView::Publish(
                stem_urls(id, location, ordered_language_codes(config.tts_supported_languages@)),
            ),
        ),
        stem_urls(id, location, ordered_language_codes(config.tts_supported_languages@)).len()
            > 0,
{
    crate::fallback::lemma_stem_urls_at_least(
        id,
        location,
        ordered_language_codes(config.tts_supported_languages@),
    );
}

} // verus!
