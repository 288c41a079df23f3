//! Fetching one chunk of audio: what to do after each attempt.
//!
//! The request itself and the waiting between attempts are the caller's. Here
//! stands the policy: an attempt that fails is repeated after a pause that
//! doubles each time, until the last attempt allowed has failed too.

use vstd::prelude::*;
use crate::text::{decimal_text, decimal_string, concat};

verus! {

/// How many times one chunk is asked for before the job gives up on it.
pub const MAX_TTS_RETRY_ATTEMPTS: u8 = 5;

/// The pause after the first failed attempt, in milliseconds.
pub const RETRY_BASE_DELAY_MS: u64 = 200;

/// How one attempt to fetch a chunk ended.
#[derive(Debug, Clone, PartialEq, Eq)]
pub enum FetchOutcome {
    /// The endpoint answered with a success status and the body was read.
    Success(Vec<u8>),
    /// The request did not get through; the text says why.
    TransportError(String),
    /// The endpoint answered with another status. `status` is the status
    /// line as the client prints it, `body` the body of the answer where it
    /// could be read.
    BadStatus { status: String, body: Option<String> },
    /// The status was a success but the body could not be read.
    BodyReadError(String),
}

/// What the caller does next for the chunk.
#[derive(Debug, Clone, PartialEq, Eq)]
pub enum FetchStep {
    /// The chunk is fetched: these are its bytes, as they were received.
    Done(Vec<u8>),
    /// Wait `delay_ms` milliseconds, then make attempt `next_attempt` with the
    /// same URL and the same identity.
    Retry { delay_ms: u64, next_attempt: u8 },
    /// The chunk is given up; the message names it.
    GiveUp(String),
}

/// Whether an HTTP status code reports success: the codes from 200 to 299.
pub open spec fn is_success_code(code: u16) -> bool {
    200 <= code && code <= 299
}

/// The pause after failed attempt number `attempt`, in milliseconds: the base
/// delay after the first, and twice the previous pause after each later one,
/// that is `RETRY_BASE_DELAY_MS * 2^(attempt - 1)`.
pub open spec fn backoff_delay_ms(attempt: nat) -> nat
    decreases attempt,
{
    if attempt <= 1 {
        RETRY_BASE_DELAY_MS as nat
    } else {
        2 * backoff_delay_ms((attempt - 1) as nat)
    }
}

/// The words by which a message names a chunk: its number, counted from one,
/// the count of chunks, and the language.
pub open spec fn chunk_label(part_idx: nat, total_parts: nat, lang: Seq<char>) -> Seq<char> {
    decimal_text(part_idx + 1) + "/"@ + decimal_text(total_parts) + " (lang "@ + lang + ")"@
}

/// The message for a failed attempt.
pub open spec fn failure_message(
    outcome: FetchOutcome,
    attempt: nat,
    part_idx: nat,
    total_parts: nat,
    lang: Seq<char>,
) -> Seq<char> {
    let label = chunk_label(part_idx, total_parts, lang);
    let n = decimal_text(attempt);
    match outcome {
        FetchOutcome::Success(_) => Seq::<char>::empty(),
        FetchOutcome::TransportError(e) => "HTTP request to TTS part "@ + label
            + " failed on attempt "@ + n + ": "@ + e@,
        FetchOutcome::BadStatus { status, body } => "TTS part "@ + label
            + " request failed on attempt "@ + n + ": Status "@ + status@ + ", Body: "@ + (match body {
            Some(b) => b@,
            None => "Could not read error body"@,
        }),
        FetchOutcome::BodyReadError(e) => "Failed to get bytes from TTS part "@ + label
            + " on attempt "@ + n + ": "@ + e@,
    }
}

/// Whether an HTTP status code reports success.
pub fn is_success_status(code: u16) -> (r: bool)
    ensures
        r == is_success_code(code),
{
    200 <= code && code <= 299
}

/// The pause after failed attempt number `attempt`, in milliseconds.
pub fn retry_delay_ms(attempt: u8) -> (delay: u64)
    requires
        1 <= attempt <= MAX_TTS_RETRY_ATTEMPTS,
    ensures
        delay == backoff_delay_ms(attempt as nat),
{
    let mut delay: u64 = RETRY_BASE_DELAY_MS;
    let mut done: u8 = 1;
    while done < attempt
        invariant
            1 <= done <= attempt <= MAX_TTS_RETRY_ATTEMPTS,
            delay == backoff_delay_ms(done as nat),
            delay <= 200 * 16,
        decreases attempt - done,
    {
        proof {
            reveal_with_fuel(backoff_delay_ms, 6);
        }
        delay = delay * 2;
        done += 1;
    }
    delay
}

/// The words by which a message names a chunk.
fn chunk_label_for(part_idx: usize, total_parts: usize, lang: &str) -> (label: String)
    ensures
        label@ == chunk_label(part_idx as nat, total_parts as nat, lang@),
{
    let mut label = decimal_string((part_idx as u128) + 1);
    label.append("/");
    label.append(decimal_string(total_parts as u128).as_str());
    label.append(" (lang ");
    label.append(lang);
    label.append(")");
    label
}

/// The message for a failed attempt.
fn failure_message_for(
    outcome: &FetchOutcome,
    attempt: u8,
    part_idx: usize,
    total_parts: usize,
    lang: &str,
) -> (msg: String)
    ensures
        msg@ == failure_message(
            *outcome,
            attempt as nat,
            part_idx as nat,
            total_parts as nat,
            lang@,
        ),
{
    let label = chunk_label_for(part_idx, total_parts, lang);
    let n = decimal_string(attempt as u128);
    match outcome {
        FetchOutcome::Success(_) => String::new(),
        FetchOutcome::TransportError(e) => {
            let mut msg = concat("HTTP request to TTS part ", label.as_str());
            msg.append(" failed on attempt ");
            msg.append(n.as_str());
            msg.append(": ");
            msg.append(e.as_str());
            msg
        },
        FetchOutcome::BadStatus { status, body } => {
            let mut msg = concat("TTS part ", label.as_str());
            msg.append(" request failed on attempt ");
            msg.append(n.as_str());
            msg.append(": Status ");
            msg.append(status.as_str());
            msg.append(", Body: ");
            match body {
                Some(b) => msg.append(b.as_str()),
                None => msg.append("Could not read error body"),
            }
            msg
        },
        FetchOutcome::BodyReadError(e) => {
            let mut msg = concat("Failed to get bytes from TTS part ", label.as_str());
            msg.append(" on attempt ");
            msg.append(n.as_str());
            msg.append(": ");
            msg.append(e.as_str());
            msg
        },
    }
}

/// Decides what follows one attempt to fetch a chunk.
///
/// `attempt` counts from one. A success hands the bytes on untouched. A
/// failure of any kind is answered by another attempt, after the pause for
/// this attempt, as long as `attempt` is below `MAX_TTS_RETRY_ATTEMPTS`; the
/// failure of the last attempt ends the chunk with a message that names the
/// chunk by index, count and language.
pub fn fetch_tts_with_retry(
    outcome: FetchOutcome,
    attempt: u8,
    part_idx: usize,
    total_parts: usize,
    lang: &str,
) -> (step: FetchStep)
    requires
        1 <= attempt,
    ensures
        match outcome {
            FetchOutcome::Success(bytes) => step == FetchStep::Done(bytes),
            _ => if attempt >= MAX_TTS_RETRY_ATTEMPTS {
                step matches FetchStep::GiveUp(msg) && msg@ == failure_message(
                    outcome,
                    attempt as nat,
                    part_idx as nat,
                    total_parts as nat,
                    lang@,
                )
            } else {
                step == (FetchStep::Retry {
                    delay_ms: backoff_delay_ms(attempt as nat) as u64,
                    next_attempt: (attempt + 1) as u8,
                })
            },
        },
{
    if attempt >= MAX_TTS_RETRY_ATTEMPTS {
        match outcome {
            FetchOutcome::Success(bytes) => FetchStep::Done(bytes),
            _ => FetchStep::GiveUp(
                failure_message_for(&outcome, attempt, part_idx, total_parts, lang),
            ),
        }
    } else {
        match outcome {
            FetchOutcome::Success(bytes) => FetchStep::Done(bytes),
            _ => FetchStep::Retry { delay_ms: retry_delay_ms(attempt), next_attempt: attempt + 1 },
        }
    }
}

/// The schedule of pauses: 200, 400, 800 and 1600 milliseconds after the
/// first four attempts. A fifth pause would last 3200 milliseconds; it is
/// never taken, because the fifth failure ends the chunk.
pub proof fn law_backoff_schedule()
    ensures
        backoff_delay_ms(1) == 200,
        backoff_delay_ms(2) == 400,
        backoff_delay_ms(3) == 800,
        backoff_delay_ms(4) == 1600,
        backoff_delay_ms(5) == 3200,
{
    reveal_with_fuel(backoff_delay_ms, 6);
}

} // verus!
