//! One run of the synthesis service for one call: the requests to make, the
//! bytes that come back, and how the run ends.
//!
//! The caller makes the requests and writes the cache file. Here stands what
//! is asked for, in which order, and what becomes of the answers.

use vstd::prelude::*;
use crate::cache::{
    get_multi_language_cache_file_path, get_web_accessible_audio_url, join_path, joined_path,
    multi_language_cache_path, web_accessible_url, language_cache_path, _get_cache_file_path,
};
use crate::config::AppConfig;
use crate::fetch::MAX_TTS_RETRY_ATTEMPTS;
use crate::identity::{IdentitySet, generate_unique_user_agent};
use crate::segment::{segment, split_long_text_static, views};
use crate::text::{concat, decimal_text, decimal_string, push_char};
use crate::tts::{
    build_speak_text, google_tts_url, speak_text, static_build_google_tts_url, MAX_CHARS_PER_CHUNK,
};

verus! {

/// One request to the synthesis service: one chunk of the announcement in one
/// language.
#[derive(Debug, Clone, PartialEq, Eq)]
pub struct ChunkRequest {
    /// The language of the chunk.
    pub language: String,
    /// Which chunk of its language this is, counted from zero.
    pub index: usize,
    /// How many chunks its language has.
    pub total: usize,
    /// The text to speak.
    pub text: String,
    /// The URL to fetch.
    pub url: String,
}

/// A chunk request as contracts read it.
pub struct ChunkPlan {
    pub language: Seq<char>,
    pub index: nat,
    pub total: nat,
    pub text: Seq<char>,
    pub url: Seq<char>,
}

impl View for ChunkRequest {
    type V = ChunkPlan;

    open spec fn view(&self) -> ChunkPlan {
        ChunkPlan {
            language: self.language@,
            index: self.index as nat,
            total: self.total as nat,
            text: self.text@,
            url: self.url@,
        }
    }
}

/// The views of a list of chunk requests.
pub open spec fn plans(requests: Seq<ChunkRequest>) -> Seq<ChunkPlan> {
    requests.map_values(|r: ChunkRequest| r@)
}

/// The requests for the chunks of one language, in the order of the chunks.
pub open spec fn chunk_plans(chunks: Seq<Seq<char>>, lang: Seq<char>) -> Seq<ChunkPlan> {
    Seq::new(
        chunks.len(),
        |i: int|
            ChunkPlan {
                language: lang,
                index: i as nat,
                total: chunks.len(),
                text: chunks[i],
                url: google_tts_url(chunks[i], lang, i as nat, chunks.len()),
            },
    )
}

/// The requests that speak a call in one language, or the message of the
/// segmentation where the announcement cannot be cut.
pub open spec fn language_plan(id: Seq<char>, location: Seq<char>, lang: Seq<char>) -> Result<
    Seq<ChunkPlan>,
    Seq<char>,
> {
    match segment(speak_text(id, location, lang), MAX_CHARS_PER_CHUNK as nat) {
        Ok(chunks) => Ok(chunk_plans(chunks, lang)),
        Err(msg) => Err(msg),
    }
}

/// The requests that speak a call in each of the languages: language after
/// language, and chunk after chunk within a language. Where the announcement
/// of some language cannot be cut, the message for the first such language.
pub open spec fn job_plan(id: Seq<char>, location: Seq<char>, languages: Seq<Seq<char>>) -> Result<
    Seq<ChunkPlan>,
    Seq<char>,
>
    decreases languages.len(),
{
    if languages.len() == 0 {
        Ok(Seq::<ChunkPlan>::empty())
    } else {
        match job_plan(id, location, languages.drop_last()) {
            Ok(before) => match language_plan(id, location, languages.last()) {
                Ok(more) => Ok(before + more),
                Err(msg) => Err(msg),
            },
            Err(msg) => Err(msg),
        }
    }
}

/// What a job covers: the announcement in all languages, as one file, or the
/// announcement in one language.
#[derive(Debug, Clone, PartialEq, Eq)]
pub enum JobScope {
    AllLanguages,
    OneLanguage(String),
}

/// The message of a job that has nothing to fetch.
pub open spec fn no_parts_message(id: Seq<char>, lang: Seq<char>) -> Seq<char> {
    "Tokenization resulted in no text parts for call id '"@ + id + "', lang '"@ + lang + "'"@
}

/// The message of a job that fetched everything and received no audio.
pub open spec fn no_audio_message(scope: JobScope, id: Seq<char>) -> Seq<char> {
    match scope {
        JobScope::AllLanguages => "No audio bytes collected from multi-language TTS"@,
        JobScope::OneLanguage(lang) => "No audio bytes collected from TTS for call ID '"@ + id
            + "', lang '"@ + lang@ + "'"@,
    }
}

/// The message of a job that gave up on a chunk. A job for all languages hands
/// the message of the fetch on as it is; a job for one language says which
/// chunk it was.
pub open spec fn chunk_failure_message(
    scope: JobScope,
    request: ChunkPlan,
    fetch_error: Seq<char>,
) -> Seq<char> {
    match scope {
        JobScope::AllLanguages => fetch_error,
        JobScope::OneLanguage(lang) => "Failed to fetch TTS part "@ + decimal_text(
            request.index + 1,
        ) + "/"@ + decimal_text(request.total) + " (lang "@ + lang@ + ") after "@ + decimal_text(
            MAX_TTS_RETRY_ATTEMPTS as nat,
        ) + " retries: "@ + fetch_error,
    }
}

/// The audio of a job that fetched all its chunks.
#[derive(Debug)]
pub struct FinishedAudio {
    /// What the job covered.
    pub scope: JobScope,
    /// The call.
    pub call_id: String,
    /// The bytes of all chunks, in the order of the requests.
    pub audio: Vec<u8>,
    /// The identities under which the requests went out.
    pub uas_this_task: IdentitySet,
    /// The directory of the cache file.
    pub cache_dir: String,
    /// The path of the cache file.
    pub cache_file_path: String,
}

/// One run of the synthesis service for one call: the requests to make, and
/// what has come of them so far.
#[derive(Debug)]
pub struct OnlineJob {
    scope: JobScope,
    call_id: String,
    requests: Vec<ChunkRequest>,
    done: usize,
    audio: Vec<u8>,
    uas_this_task: IdentitySet,
    cache_dir: String,
    cache_file_path: String,
}

/// Appends the requests for the chunks of one language.
fn push_chunk_requests(requests: &mut Vec<ChunkRequest>, parts: &Vec<String>, lang: &str)
    ensures
        plans(final(requests)@) == plans(old(requests)@) + chunk_plans(views(parts@), lang@),
{
    let ghost start = plans(requests@);
    let ghost all = chunk_plans(views(parts@), lang@);
    let mut idx: usize = 0;
    assert(start + all.take(0) =~= start);
    while idx < parts.len()
        invariant
            idx <= parts.len(),
            all == chunk_plans(views(parts@), lang@),
            plans(requests@) == start + all.take(idx as int),
        decreases parts.len() - idx,
    {
        let part = &parts[idx];
        let request = ChunkRequest {
            language: String::from_str(lang),
            index: idx,
            total: parts.len(),
            text: part.clone(),
            url: static_build_google_tts_url(part.as_str(), lang, idx, parts.len()),
        };
        let ghost before = plans(requests@);
        requests.push(request);
        proof {
            assert(views(parts@)[idx as int] == part@);
            assert(request@ == all[idx as int]);
            assert(plans(requests@) =~= before.push(request@));
            assert(start + all.take(idx + 1) =~= (start + all.take(idx as int)).push(
                all[idx as int],
            ));
        }
        idx += 1;
    }
    assert(all.take(idx as int) =~= all);
}

impl OnlineJob {
    /// What the job covers.
    pub closed spec fn scope(&self) -> JobScope {
        self.scope
    }

    /// The call.
    pub closed spec fn call_id(&self) -> Seq<char> {
        self.call_id@
    }

    /// The requests of the job, in the order in which they are made.
    pub closed spec fn requests(&self) -> Seq<ChunkPlan> {
        plans(self.requests@)
    }

    /// How many of the requests were answered.
    pub closed spec fn done(&self) -> nat {
        self.done as nat
    }

    /// The bytes received so far.
    pub closed spec fn audio(&self) -> Seq<u8> {
        self.audio@
    }

    /// The identities used so far.
    pub closed spec fn identities(&self) -> Set<Seq<char>> {
        self.uas_this_task@
    }

    /// The directory of the cache file.
    pub closed spec fn cache_dir(&self) -> Seq<char> {
        self.cache_dir@
    }

    /// The path of the cache file.
    pub closed spec fn cache_path(&self) -> Seq<char> {
        self.cache_file_path@
    }

    /// The request that is due, if any is left.
    pub open spec fn due(&self) -> Option<ChunkPlan> {
        if self.done() < self.requests().len() {
            Some(self.requests()[self.done() as int])
        } else {
            None
        }
    }

    /// Plans the synthesis of a call in all the given languages, to be cached
    /// as one file.
    ///
    /// The plan holds one request for each chunk of each language, language
    /// after language. Nothing is planned where the announcement of some
    /// language cannot be cut into chunks; the message then says why.
    pub fn perform_online_multi_language_tts_generation(
        config: &AppConfig,
        id: &str,
        location: &str,
        ordered_lang_codes: &Vec<String>,
    ) -> (r: Result<OnlineJob, String>)
        ensures
            match r {
                Ok(job) => {
                    &&& job_plan(id@, location@, views(ordered_lang_codes@)) == Ok::<
                        Seq<ChunkPlan>,
                        Seq<char>,
                    >(job.requests())
                    &&& job.scope() == JobScope::AllLanguages
                    &&& job.call_id() == id@
                    &&& job.done() == 0
                    &&& job.audio() == Seq::<u8>::empty()
                    &&& job.identities() == Set::<Seq<char>>::empty()
                    &&& job.cache_dir() == joined_path(config.gtts_cache_base_path@, "multi"@)
                    &&& job.cache_path() == multi_language_cache_path(
                        config.gtts_cache_base_path@,
                        id@,
                        location@,
                    )
                },
                Err(msg) => job_plan(id@, location@, views(ordered_lang_codes@)) == Err::<
                    Seq<ChunkPlan>,
                    Seq<char>,
                >(msg@),
            },
    {
        let mut requests: Vec<ChunkRequest> = Vec::new();
        let ghost langs = views(ordered_lang_codes@);
        let mut i: usize = 0;
        assert(langs.take(0) =~= Seq::<Seq<char>>::empty());
        assert(plans(requests@) =~= Seq::<ChunkPlan>::empty());
        while i < ordered_lang_codes.len()
            invariant
                i <= ordered_lang_codes.len(),
                langs == views(ordered_lang_codes@),
                job_plan(id@, location@, langs.take(i as int)) == Ok::<Seq<ChunkPlan>, Seq<char>>(
                    plans(requests@),
                ),
            decreases ordered_lang_codes.len() - i,
        {
            let lang_code = ordered_lang_codes[i].as_str();
            proof {
                let next = langs.take(i + 1);
                assert(next.drop_last() =~= langs.take(i as int));
                assert(next.last() == lang_code@);
            }
            let text_for_this_lang = build_speak_text(id, location, lang_code);
            match split_long_text_static(text_for_this_lang.as_str(), MAX_CHARS_PER_CHUNK) {
                Ok(tokenized_parts) => {
                    push_chunk_requests(&mut requests, &tokenized_parts, lang_code);
                },
                Err(msg) => {
                    proof {
                        lemma_job_plan_fails_on(id@, location@, langs, i as int);
                    }
                    return Err(msg);
                },
            }
            i += 1;
        }
        assert(langs.take(i as int) == langs);
        Ok(
            OnlineJob {
                scope: JobScope::AllLanguages,
                call_id: String::from_str(id),
                requests,
                done: 0,
                audio: Vec::new(),
                uas_this_task: IdentitySet::new(),
                cache_dir: join_path(config.gtts_cache_base_path.as_str(), "multi"),
                cache_file_path: get_multi_language_cache_file_path(
                    config.gtts_cache_base_path.as_str(),
                    id,
                    location,
                ),
            },
        )
    }

    /// Plans the synthesis of a call in one language, from an announcement
    /// that is cut into chunks already, to be cached in the directory of that
    /// language. Nothing is planned where there are no chunks.
    pub fn _perform_online_tts_generation(
        config: &AppConfig,
        id: &str,
        location: &str,
        lang: &str,
        text_parts: &Vec<String>,
    ) -> (r: Result<OnlineJob, String>)
        ensures
            match r {
                Ok(job) => {
                    &&& text_parts.len() > 0
                    &&& job.requests() == chunk_plans(views(text_parts@), lang@)
                    &&& job.scope() matches JobScope::OneLanguage(l) && l@ == lang@
                    &&& job.call_id() == id@
                    &&& job.done() == 0
                    &&& job.audio() == Seq::<u8>::empty()
                    &&& job.identities() == Set::<Seq<char>>::empty()
                    &&& job.cache_dir() == joined_path(
                        config.gtts_cache_base_path@,
                        crate::cache::sanitized(lang@),
                    )
                    &&& job.cache_path() == language_cache_path(
                        config.gtts_cache_base_path@,
                        lang@,
                        id@,
                        location@,
                    )
                },
                Err(msg) => text_parts.len() == 0 && msg@ == no_parts_message(id@, lang@),
            },
    {
        if text_parts.len() == 0 {
            let mut msg = concat("Tokenization resulted in no text parts for call id '", id);
            msg.append("', lang '");
            msg.append(lang);
            msg.append("'");
            return Err(msg);
        }
        let mut requests: Vec<ChunkRequest> = Vec::new();
        assert(plans(requests@) =~= Seq::<ChunkPlan>::empty());
        push_chunk_requests(&mut requests, text_parts, lang);
        assert(plans(requests@) =~= chunk_plans(views(text_parts@), lang@));
        Ok(
            OnlineJob {
                scope: JobScope::OneLanguage(String::from_str(lang)),
                call_id: String::from_str(id),
                requests,
                done: 0,
                audio: Vec::new(),
                uas_this_task: IdentitySet::new(),
                cache_dir: join_path(
                    config.gtts_cache_base_path.as_str(),
                    crate::cache::sanitize(lang).as_str(),
                ),
                cache_file_path: _get_cache_file_path(
                    config.gtts_cache_base_path.as_str(),
                    lang,
                    id,
                    location,
                ),
            },
        )
    }

    /// The request to make next, or `None` where all were answered.
    pub fn next_request(&self) -> (r: Option<&ChunkRequest>)
        ensures
            match r {
                Some(request) => self.due() == Some(request@),
                None => self.due() is None,
            },
    {
        if self.done < self.requests.len() {
            Some(&self.requests[self.done])
        } else {
            None
        }
    }

    /// Picks the identity under which the next request goes out; see
    /// `generate_unique_user_agent`.
    pub fn identity_for_next(&mut self, last_call_uas: &IdentitySet) -> (user_agent: String)
        ensures
            final(self).identities() == old(self).identities().insert(user_agent@),
            final(self).scope() == old(self).scope(),
            final(self).call_id() == old(self).call_id(),
            final(self).requests() == old(self).requests(),
            final(self).done() == old(self).done(),
            final(self).audio() == old(self).audio(),
            final(self).cache_dir() == old(self).cache_dir(),
            final(self).cache_path() == old(self).cache_path(),
    {
        generate_unique_user_agent(last_call_uas, &mut self.uas_this_task)
    }

    /// Takes the bytes that answered the request that was due. They go to the
    /// end of what was received before, and the next request becomes due.
    fn accept_chunk(&mut self, bytes: &Vec<u8>)
        requires
            old(self).due() is Some,
        ensures
            final(self).audio() == old(self).audio() + bytes@,
            final(self).done() == old(self).done() + 1,
            final(self).identities() == old(self).identities(),
            final(self).scope() == old(self).scope(),
            final(self).call_id() == old(self).call_id(),
            final(self).requests() == old(self).requests(),
            final(self).cache_dir() == old(self).cache_dir(),
            final(self).cache_path() == old(self).cache_path(),
    {
        let mut i: usize = 0;
        let ghost before = self.audio@;
        assert(before + bytes@.take(0) =~= before);
        while i < bytes.len()
            invariant
                i <= bytes.len(),
                self.done < self.requests.len(),
                self.audio@ == before + bytes@.take(i as int),
                self.done == old(self).done,
                self.requests == old(self).requests,
                self.uas_this_task == old(self).uas_this_task,
                self.scope == old(self).scope,
                self.call_id == old(self).call_id,
                self.cache_dir == old(self).cache_dir,
                self.cache_file_path == old(self).cache_file_path,
            decreases bytes.len() - i,
        {
            self.audio.push(bytes[i]);
            assert(before + bytes@.take(i + 1) =~= (before + bytes@.take(i as int)).push(
                bytes@[i as int],
            ));
            i += 1;
        }
        assert(bytes@.take(i as int) =~= bytes@);
        self.done = self.done + 1;
    }

    /// The message with which the job ends when the request that is due was
    /// given up.
    fn chunk_failed(&self, fetch_error: &str) -> (msg: String)
        requires
            self.due() is Some,
        ensures
            msg@ == chunk_failure_message(self.scope(), self.due()->0, fetch_error@),
    {
        match &self.scope {
            JobScope::AllLanguages => String::from_str(fetch_error),
            JobScope::OneLanguage(lang) => {
                let request = &self.requests[self.done];
                let mut msg = concat(
                    "Failed to fetch TTS part ",
                    decimal_string((request.index as u128) + 1).as_str(),
                );
                msg.append("/");
                msg.append(decimal_string(request.total as u128).as_str());
                msg.append(" (lang ");
                msg.append(lang.as_str());
                msg.append(") after ");
                msg.append(decimal_string(MAX_TTS_RETRY_ATTEMPTS as u128).as_str());
                msg.append(" retries: ");
                msg.append(fetch_error);
                msg
            },
        }
    }

    /// Takes what came of the request that was due.
    ///
    /// Bytes that were fetched go to the end of what was received before, and
    /// the job comes back with the next request due. A request that was given
    /// up ends the job: what comes back is the message, and the job is gone,
    /// with the audio it had received and the identities it had used. No later
    /// request of it can be made, and there is nothing of it to write to the
    /// cache or to remember.
    pub fn on_chunk(self, fetched: Result<Vec<u8>, String>) -> (r: Result<OnlineJob, String>)
        requires
            self.due() is Some,
        ensures
            match fetched {
                Ok(bytes) => {
                    &&& r matches Ok(job)
                    &&& job.audio() == self.audio() + bytes@
                    &&& job.done() == self.done() + 1
                    &&& job.requests() == self.requests()
                    &&& job.identities() == self.identities()
                    &&& job.scope() == self.scope()
                    &&& job.call_id() == self.call_id()
                    &&& job.cache_dir() == self.cache_dir()
                    &&& job.cache_path() == self.cache_path()
                },
                Err(e) => r matches Err(msg) && msg@ == chunk_failure_message(
                    self.scope(),
                    self.due()->0,
                    e@,
                ),
            },
    {
        let mut job = self;
        match fetched {
            Ok(bytes) => {
                job.accept_chunk(&bytes);
                Ok(job)
            },
            Err(e) => Err(job.chunk_failed(e.as_str())),
        }
    }

    /// Ends a job whose requests were all answered. The audio is handed out
    /// where any was received; a job that received none has failed.
    pub fn finish(self) -> (r: Result<FinishedAudio, String>)
        requires
            self.due() is None,
        ensures
            match r {
                Ok(finished) => {
                    &&& self.audio().len() > 0
                    &&& finished.audio@ == self.audio()
                    &&& finished.uas_this_task@ == self.identities()
                    &&& finished.cache_dir@ == self.cache_dir()
                    &&& finished.cache_file_path@ == self.cache_path()
                    &&& finished.scope == self.scope()
                    &&& finished.call_id@ == self.call_id()
                },
                Err(msg) => self.audio().len() == 0 && msg@ == no_audio_message(
                    self.scope(),
                    self.call_id(),
                ),
            },
    {
        if self.audio.len() == 0 {
            return Err(
                match &self.scope {
                    JobScope::AllLanguages => String::from_str(
                        "No audio bytes collected from multi-language TTS",
                    ),
                    JobScope::OneLanguage(lang) => {
                        let mut msg = concat(
                            "No audio bytes collected from TTS for call ID '",
                            self.call_id.as_str(),
                        );
                        msg.append("', lang '");
                        msg.append(lang.as_str());
                        msg.append("'");
                        msg
                    },
                },
            );
        }
        Ok(
            FinishedAudio {
                scope: self.scope,
                call_id: self.call_id,
                audio: self.audio,
                uas_this_task: self.uas_this_task,
                cache_dir: self.cache_dir,
                cache_file_path: self.cache_file_path,
            },
        )
    }
}

/// Where the announcement of the language at index `i` cannot be cut, and
/// those of the languages before it can, the plan fails with its message.
proof fn lemma_job_plan_fails_on(
    id: Seq<char>,
    location: Seq<char>,
    languages: Seq<Seq<char>>,
    i: int,
)
    requires
        0 <= i < languages.len(),
        job_plan(id, location, languages.take(i)) is Ok,
        language_plan(id, location, languages[i]) is Err,
    ensures
        job_plan(id, location, languages) == Err::<Seq<ChunkPlan>, Seq<char>>(
            language_plan(id, location, languages[i])->Err_0,
        ),
    decreases languages.len() - i,
{
    let next = languages.take(i + 1);
    assert(next.drop_last() =~= languages.take(i));
    assert(next.last() == languages[i]);
    lemma_job_plan_stays_failed(id, location, languages, i + 1);
}

/// A plan that fails for the first languages fails for all of them, with the
/// same message.
proof fn lemma_job_plan_stays_failed(
    id: Seq<char>,
    location: Seq<char>,
    languages: Seq<Seq<char>>,
    n: int,
)
    requires
        0 <= n <= languages.len(),
        job_plan(id, location, languages.take(n)) is Err,
    ensures
        job_plan(id, location, languages) == job_plan(id, location, languages.take(n)),
    decreases languages.len() - n,
{
    if n == languages.len() {
        assert(languages.take(n) =~= languages);
    } else {
        let next = languages.take(n + 1);
        assert(next.drop_last() =~= languages.take(n));
        lemma_job_plan_stays_failed(id, location, languages, n + 1);
    }
}

/// How a run of the synthesis service ended.
#[derive(Debug, Clone, PartialEq, Eq)]
pub enum OnlineOutcome {
    /// The audio was fetched and cached, and is served at this URL.
    Succeeded { audio_url: String },
    /// Something went wrong; the text says what.
    Failed { reason: String },
    /// The time allowed for the run was over before it ended.
    TimedOut,
}

/// What went wrong when the audio was written to the cache.
#[derive(Debug, Clone, PartialEq, Eq)]
pub enum CacheWriteFailure {
    /// The directory of the cache file could not be made.
    CreateDir(String),
    /// The cache file could not be written.
    Write(String),
}

/// A path as it stands in a message: between double quotes.
pub open spec fn quoted(path: Seq<char>) -> Seq<char> {
    seq!['"'] + path + seq!['"']
}

/// The message of a run that could not write its audio to the cache.
pub open spec fn cache_write_message(
    failure: CacheWriteFailure,
    scope: JobScope,
    cache_dir: Seq<char>,
    cache_file_path: Seq<char>,
) -> Seq<char> {
    match failure {
        CacheWriteFailure::CreateDir(e) => "Failed to create TTS cache subdirectory "@ + quoted(
            cache_dir,
        ) + ": "@ + e@,
        CacheWriteFailure::Write(e) => match scope {
            JobScope::AllLanguages => "Failed to write multi-language TTS audio to cache "@
                + quoted(cache_file_path) + ": "@ + e@,
            JobScope::OneLanguage(lang) => "Failed to write concatenated TTS audio to cache "@
                + quoted(cache_file_path) + " (lang "@ + lang@ + "): "@ + e@,
        },
    }
}

/// The message of a run whose cache file has no place on the web server.
pub open spec fn no_web_url_message(
    scope: JobScope,
    call_id: Seq<char>,
    cache_file_path: Seq<char>,
) -> Seq<char> {
    match scope {
        JobScope::AllLanguages => "Failed to get web-accessible URL for multi-language TTS audio: "@
            + quoted(cache_file_path),
        JobScope::OneLanguage(lang) => "Failed to get web-accessible URL for TTS audio (id: "@
            + call_id + ", lang: "@ + lang@ + "): "@ + quoted(cache_file_path),
    }
}

/// Whether the cache is pruned after the attempt to write a cache file: after
/// a file was written, unless the settings put no ceiling on the cache.
pub fn pruning_is_due(config: &AppConfig, written: &Result<(), CacheWriteFailure>) -> (due: bool)
    ensures
        due == (*written is Ok && config.tts_cache_maximum_files > 0),
{
    match written {
        Ok(_) => config.tts_cache_maximum_files > 0,
        Err(_) => false,
    }
}

/// A path between double quotes.
fn quote(path: &str) -> (r: String)
    ensures
        r@ == quoted(path@),
{
    let mut r = String::new();
    push_char(&mut r, '"');
    r.append(path);
    push_char(&mut r, '"');
    assert(r@ =~= quoted(path@));
    r
}

/// Says how a run of the synthesis service ended, once its audio was fetched
/// and the attempt to write it to the cache was made.
///
/// A run succeeds where the audio was written and the cache file has a URL;
/// that URL is the result. Otherwise the run has failed, with a message that
/// says at which step.
pub fn conclude_online(
    config: &AppConfig,
    scope: &JobScope,
    call_id: &str,
    cache_dir: &str,
    cache_file_path: &str,
    written: Result<(), CacheWriteFailure>,
) -> (outcome: OnlineOutcome)
    ensures
        match written {
            Err(failure) => outcome matches OnlineOutcome::Failed { reason } && reason@
                == cache_write_message(failure, *scope, cache_dir@, cache_file_path@),
            Ok(_) => match web_accessible_url(
                cache_file_path@,
                config.gtts_cache_base_path@,
                config.tts_cache_web_path@,
            ) {
                Some(url) => outcome matches OnlineOutcome::Succeeded { audio_url } && audio_url@
                    == url,
                None => outcome matches OnlineOutcome::Failed { reason } && reason@
                    == no_web_url_message(*scope, call_id@, cache_file_path@),
            },
        },
{
    match written {
        Err(CacheWriteFailure::CreateDir(e)) => {
            let mut reason = concat(
                "Failed to create TTS cache subdirectory ",
                quote(cache_dir).as_str(),
            );
            reason.append(": ");
            reason.append(e.as_str());
            OnlineOutcome::Failed { reason }
        },
        Err(CacheWriteFailure::Write(e)) => {
            let mut reason = match scope {
                JobScope::AllLanguages => concat(
                    "Failed to write multi-language TTS audio to cache ",
                    quote(cache_file_path).as_str(),
                ),
                JobScope::OneLanguage(lang) => {
                    let mut head = concat(
                        "Failed to write concatenated TTS audio to cache ",
                        quote(cache_file_path).as_str(),
                    );
                    head.append(" (lang ");
                    head.append(lang.as_str());
                    head.append(")");
                    head
                },
            };
            reason.append(": ");
            reason.append(e.as_str());
            proof {
                reveal_strlit(")");
                reveal_strlit(": ");
                reveal_strlit("): ");
                assert(")"@ + ": "@ =~= "): "@);
            }
            OnlineOutcome::Failed { reason }
        },
        Ok(_) => {
            match get_web_accessible_audio_url(
                cache_file_path,
                config.serve_dir_path.as_str(),
                config.gtts_cache_base_path.as_str(),
                config.tts_cache_web_path.as_str(),
            ) {
                Some(audio_url) => OnlineOutcome::Succeeded { audio_url },
                None => {
                    let reason = match scope {
                        JobScope::AllLanguages => concat(
                            "Failed to get web-accessible URL for multi-language TTS audio: ",
                            quote(cache_file_path).as_str(),
                        ),
                        JobScope::OneLanguage(lang) => {
                            let mut head = concat(
                                "Failed to get web-accessible URL for TTS audio (id: ",
                                call_id,
                            );
                            head.append(", lang: ");
                            head.append(lang.as_str());
                            head.append("): ");
                            head.append(quote(cache_file_path).as_str());
                            head
                        },
                    };
                    OnlineOutcome::Failed { reason }
                },
            }
        },
    }
}

} // verus!
