//! The call queue: the call that is being served, and the bounded histories of
//! the calls that were completed and of those that were skipped.

use vstd::prelude::*;
use std::collections::VecDeque;
use crate::text::{
    ascii_upper, is_ascii_digit, chars_of, char_ascii_upper, char_is_ascii_digit, push_char,
    str_equal,
};

verus! {

/// A point in time: seconds since the start of 1970 (UTC), and the
/// nanoseconds into that second.
#[derive(Debug, Clone, Copy, PartialEq, Eq, Structural)]
pub struct Timestamp {
    pub secs: i64,
    pub nanos: u32,
}

/// One call of the queue.
#[derive(Debug, PartialEq, Eq)]
pub struct Call {
    /// The identifier in its standard form, by which calls are told apart.
    pub id: String,
    /// The identifier as it was handed in.
    pub original_id: String,
    /// The counter that serves the call.
    pub location: String,
    /// When the call was last added, skipped or completed.
    pub timestamp: Timestamp,
}

/// A call as contracts read it.
pub struct CallView {
    pub id: Seq<char>,
    pub original_id: Seq<char>,
    pub location: Seq<char>,
    pub timestamp: Timestamp,
}

impl View for Call {
    type V = CallView;

    open spec fn view(&self) -> CallView {
        CallView {
            id: self.id@,
            original_id: self.original_id@,
            location: self.location@,
            timestamp: self.timestamp,
        }
    }
}

impl Clone for Call {
    fn clone(&self) -> (copy: Self)
        ensures
            copy@ == self@,
    {
        Call {
            id: self.id.clone(),
            original_id: self.original_id.clone(),
            location: self.location.clone(),
            timestamp: self.timestamp,
        }
    }
}

/// The queue as its consumers see it.
#[derive(Debug, Clone, PartialEq)]
pub struct QueueState {
    pub current_call: Option<Call>,
    pub completed_history: VecDeque<Call>,
    pub skipped_history: VecDeque<Call>,
}

/// The views of a list of calls.
pub open spec fn call_views(calls: Seq<Call>) -> Seq<CallView> {
    calls.map_values(|c: Call| c@)
}

/// The view of a call that may be absent.
pub open spec fn maybe_view(call: Option<Call>) -> Option<CallView> {
    match call {
        Some(c) => Some(c@),
        None => None,
    }
}

/// The view of a borrowed call that may be absent.
pub open spec fn maybe_ref_view(call: Option<&Call>) -> Option<CallView> {
    match call {
        Some(c) => Some(c@),
        None => None,
    }
}

/// An identifier in its standard form: the first character in upper case,
/// and a lone digit after it written with a leading zero (`a1` becomes `A01`,
/// `B10` stays `B10`). The empty identifier stays empty.
pub open spec fn formatted_identifier(original: Seq<char>) -> Seq<char> {
    if original.len() == 0 {
        original
    } else if original.len() == 2 && is_ascii_digit(original[1]) {
        seq![ascii_upper(original[0]), '0', original[1]]
    } else {
        seq![ascii_upper(original[0])] + original.skip(1)
    }
}

/// The index of the first call with the identifier `id`.
pub open spec fn position_of(calls: Seq<CallView>, id: Seq<char>) -> Option<int>
    decreases calls.len(),
{
    if calls.len() == 0 {
        None
    } else if calls[0].id == id {
        Some(0)
    } else {
        match position_of(calls.drop_first(), id) {
            Some(i) => Some(i + 1),
            None => None,
        }
    }
}

/// The calls without the first one that has the identifier `id`.
pub open spec fn without_first(calls: Seq<CallView>, id: Seq<char>) -> Seq<CallView> {
    match position_of(calls, id) {
        Some(i) => calls.remove(i),
        None => calls,
    }
}

/// The newest `max` calls of a history, or all of it where it holds no more.
pub open spec fn newest(calls: Seq<CallView>, max: nat) -> Seq<CallView> {
    if calls.len() > max {
        calls.skip(calls.len() - max)
    } else {
        calls
    }
}

/// The call with the identifier `id`, looked for in the current call first,
/// then among the completed calls, then among the skipped ones.
pub open spec fn found_call(
    current: Option<CallView>,
    completed: Seq<CallView>,
    skipped: Seq<CallView>,
    id: Seq<char>,
) -> Option<CallView> {
    if current is Some && current->0.id == id {
        current
    } else if position_of(completed, id) is Some {
        Some(completed[position_of(completed, id)->0])
    } else if position_of(skipped, id) is Some {
        Some(skipped[position_of(skipped, id)->0])
    } else {
        None
    }
}

/// `position_of` finds the first call with the identifier, if there is one.
pub proof fn lemma_position_of(calls: Seq<CallView>, id: Seq<char>)
    ensures
        match position_of(calls, id) {
            Some(i) => 0 <= i < calls.len() && calls[i].id == id && forall|k: int|
                0 <= k < i ==> (#[trigger] calls[k]).id != id,
            None => forall|k: int| 0 <= k < calls.len() ==> (#[trigger] calls[k]).id != id,
        },
    decreases calls.len(),
{
    if calls.len() > 0 && calls[0].id != id {
        let rest = calls.drop_first();
        lemma_position_of(rest, id);
        match position_of(rest, id) {
            Some(i) => {
                assert forall|k: int| 0 <= k < i + 1 implies (#[trigger] calls[k]).id != id by {
                    if k > 0 {
                        assert(calls[k] == rest[k - 1]);
                    }
                }
            },
            None => {
                assert forall|k: int| 0 <= k < calls.len() implies (#[trigger] calls[k]).id
                    != id by {
                    if k > 0 {
                        assert(calls[k] == rest[k - 1]);
                    }
                }
            },
        }
    }
}

/// The first index before which no call has the identifier is `position_of`.
pub proof fn lemma_position_of_is(calls: Seq<CallView>, id: Seq<char>, i: int)
    requires
        0 <= i <= calls.len(),
        forall|k: int| 0 <= k < i ==> (#[trigger] calls[k]).id != id,
        i < calls.len() ==> calls[i].id == id,
    ensures
        position_of(calls, id) == if i < calls.len() {
            Some(i)
        } else {
            None::<int>
        },
{
    lemma_position_of(calls, id);
}

/// Writes an identifier in its standard form.
pub fn format_identifier(original_id: &str) -> (r: String)
    ensures
        r@ == formatted_identifier(original_id@),
{
    let chars = chars_of(original_id);
    let mut out = String::new();
    if chars.len() == 0 {
        return out;
    }
    push_char(&mut out, char_ascii_upper(chars[0]));
    if chars.len() == 2 && char_is_ascii_digit(chars[1]) {
        push_char(&mut out, '0');
        push_char(&mut out, chars[1]);
        assert(out@ =~= seq![ascii_upper(chars@[0]), '0', chars@[1]]);
    } else {
        let mut i: usize = 1;
        while i < chars.len()
            invariant
                1 <= i <= chars.len(),
                out@ == seq![ascii_upper(chars@[0])] + chars@.subrange(1, i as int),
            decreases chars.len() - i,
        {
            push_char(&mut out, chars[i]);
            assert(chars@.subrange(1, i + 1) =~= chars@.subrange(1, i as int).push(chars@[i as int]));
            i += 1;
        }
        assert(chars@.subrange(1, chars@.len() as int) =~= chars@.skip(1));
    }
    out
}

/// The moment at which this is called: the system clock, read by
/// `SystemTime::now` and turned into a `chrono::DateTime<Utc>` by chrono's
/// `From<SystemTime>`, of which the seconds and the nanoseconds are taken.
/// Nothing is claimed of the value. The conversion holds every time that the
/// clock of a working machine shows, before 1970 included.
#[verifier::external_body]
pub(crate) fn current_timestamp() -> (now: Timestamp) {
    let now: chrono::DateTime<chrono::Utc> = std::time::SystemTime::now().into();
    Timestamp { secs: now.timestamp(), nanos: now.timestamp_subsec_nanos() }
}

/// Takes the first call with the identifier `call_id` out of a history.
fn remove_by_id(history: &mut VecDeque<Call>, call_id: &str) -> (removed: Option<Call>)
    ensures
        call_views(final(history)@) == without_first(call_views(old(history)@), call_id@),
        match removed {
            Some(c) => position_of(call_views(old(history)@), call_id@) is Some && c@
                == call_views(old(history)@)[position_of(call_views(old(history)@), call_id@)->0],
            None => position_of(call_views(old(history)@), call_id@) is None,
        },
{
    let ghost before = call_views(history@);
    let mut i: usize = 0;
    while i < history.len()
        invariant
            i <= history.len(),
            *history == *old(history),
            before == call_views(history@),
            forall|k: int| 0 <= k < i ==> (#[trigger] before[k]).id != call_id@,
        decreases history.len() - i,
    {
        if str_equal(history[i].id.as_str(), call_id) {
            proof {
                assert(before[i as int].id == call_id@);
                lemma_position_of_is(before, call_id@, i as int);
            }
            let removed = history.remove(i);
            assert(call_views(history@) =~= before.remove(i as int));
            return removed;
        }
        i += 1;
    }
    proof {
        lemma_position_of_is(before, call_id@, i as int);
    }
    None
}

/// Drops the oldest calls of a history until it holds no more than `max`.
fn enforce_max_size(history: &mut VecDeque<Call>, max: usize)
    ensures
        call_views(final(history)@) == newest(call_views(old(history)@), max as nat),
{
    let ghost before = call_views(history@);
    while history.len() > max
        invariant
            history.len() <= before.len(),
            before.len() > max ==> history.len() >= max,
            before.len() <= max ==> history.len() == before.len(),
            call_views(history@) == before.skip(before.len() - history.len()),
        decreases history.len(),
    {
        let ghost mid = call_views(history@);
        let _ = history.pop_front();
        assert(call_views(history@) =~= mid.skip(1));
        assert(mid.skip(1) =~= before.skip(before.len() - history.len()));
    }
    assert(before.skip(0) =~= before);
}

/// The queue as contracts read it.
pub struct QueueView {
    /// The call that is being served.
    pub current: Option<CallView>,
    /// The completed calls, oldest first.
    pub completed: Seq<CallView>,
    /// The skipped calls, oldest first.
    pub skipped: Seq<CallView>,
    /// How many completed calls are remembered at most.
    pub max_completed: nat,
    /// How many skipped calls are remembered at most.
    pub max_skipped: nat,
}

/// The call that `add_call` and `add_to_skipped_directly` put into the queue.
pub open spec fn fresh_call(original_id: Seq<char>, location: Seq<char>, now: Timestamp) -> CallView {
    CallView { id: formatted_identifier(original_id), original_id, location, timestamp: now }
}

impl QueueView {
    /// The queue without the call that has the identifier `id`: it leaves the
    /// current place and, where it stands first under that identifier, each
    /// of the two histories.
    pub open spec fn without(self, id: Seq<char>) -> QueueView {
        QueueView {
            current: if self.current is Some && self.current->0.id == id {
                None
            } else {
                self.current
            },
            completed: without_first(self.completed, id),
            skipped: without_first(self.skipped, id),
            ..self
        }
    }

    /// The queue after a call was added: the call is the current one, under
    /// its standard identifier and with the location and time given, whether
    /// or not the queue knew it before; the call that was current until then
    /// is the newest completed one.
    pub open spec fn with_call_added(
        self,
        original_id: Seq<char>,
        location: Seq<char>,
        now: Timestamp,
    ) -> QueueView {
        let call = fresh_call(original_id, location, now);
        let cleared = self.without(call.id);
        QueueView {
            current: Some(call),
            completed: match cleared.current {
                Some(previous) => newest(cleared.completed.push(previous), self.max_completed),
                None => cleared.completed,
            },
            ..cleared
        }
    }

    /// The queue after its current call was skipped at the time `now`.
    pub open spec fn with_current_skipped(self, now: Timestamp) -> QueueView {
        match self.current {
            Some(call) => {
                let cleared = self.without(call.id);
                QueueView {
                    skipped: newest(
                        cleared.skipped.push(CallView { timestamp: now, ..call }),
                        self.max_skipped,
                    ),
                    ..cleared
                }
            },
            None => self,
        }
    }

    /// The queue after its current call was completed at the time `now`.
    pub open spec fn with_current_completed(self, now: Timestamp) -> QueueView {
        match self.current {
            Some(call) => {
                let cleared = self.without(call.id);
                QueueView {
                    completed: newest(
                        cleared.completed.push(CallView { timestamp: now, ..call }),
                        self.max_completed,
                    ),
                    ..cleared
                }
            },
            None => self,
        }
    }

    /// The queue after a call was put among the skipped ones directly.
    pub open spec fn with_call_skipped(
        self,
        original_id: Seq<char>,
        location: Seq<char>,
        now: Timestamp,
    ) -> QueueView {
        let call = fresh_call(original_id, location, now);
        let cleared = self.without(call.id);
        QueueView { skipped: newest(cleared.skipped.push(call), self.max_skipped), ..cleared }
    }
}

/// How many of the calls have the identifier `id`.
pub open spec fn occurrences(calls: Seq<CallView>, id: Seq<char>) -> nat
    decreases calls.len(),
{
    if calls.len() == 0 {
        0
    } else {
        occurrences(calls.drop_last(), id) + if calls.last().id == id {
            1nat
        } else {
            0nat
        }
    }
}

impl QueueView {
    /// How many times the queue holds a call with the identifier `id`, the
    /// current place and both histories taken together.
    pub open spec fn times_present(self, id: Seq<char>) -> nat {
        occurrences(self.completed, id) + occurrences(self.skipped, id) + if self.current is Some
            && self.current->0.id == id {
            1nat
        } else {
            0nat
        }
    }

    /// The queue is in order: neither history holds more calls than it may,
    /// and no identifier stands in the queue twice.
    pub open spec fn well_formed(self) -> bool {
        &&& self.completed.len() <= self.max_completed
        &&& self.skipped.len() <= self.max_skipped
        &&& forall|id: Seq<char>| #[trigger] self.times_present(id) <= 1
    }
}

proof fn lemma_occurrences_push(calls: Seq<CallView>, call: CallView, id: Seq<char>)
    ensures
        occurrences(calls.push(call), id) == occurrences(calls, id) + if call.id == id {
            1nat
        } else {
            0nat
        },
{
    assert(calls.push(call).drop_last() =~= calls);
}

proof fn lemma_occurrences_none(calls: Seq<CallView>, id: Seq<char>)
    requires
        forall|k: int| 0 <= k < calls.len() ==> (#[trigger] calls[k]).id != id,
    ensures
        occurrences(calls, id) == 0,
    decreases calls.len(),
{
    if calls.len() > 0 {
        let rest = calls.drop_last();
        assert forall|k: int| 0 <= k < rest.len() implies (#[trigger] rest[k]).id != id by {
            assert(rest[k] == calls[k]);
        }
        lemma_occurrences_none(rest, id);
    }
}

proof fn lemma_occurrences_remove(calls: Seq<CallView>, i: int, id: Seq<char>)
    requires
        0 <= i < calls.len(),
    ensures
        occurrences(calls.remove(i), id) + (if calls[i].id == id {
            1nat
        } else {
            0nat
        }) == occurrences(calls, id),
    decreases calls.len(),
{
    if i == calls.len() - 1 {
        assert(calls.remove(i) =~= calls.drop_last());
    } else {
        let rest = calls.drop_last();
        lemma_occurrences_remove(rest, i, id);
        assert(calls.remove(i) =~= rest.remove(i).push(calls.last()));
        lemma_occurrences_push(rest.remove(i), calls.last(), id);
        assert(rest[i] == calls[i]);
    }
}

proof fn lemma_occurrences_skip(calls: Seq<CallView>, k: int, id: Seq<char>)
    requires
        0 <= k <= calls.len(),
    ensures
        occurrences(calls.skip(k), id) <= occurrences(calls, id),
    decreases calls.len(),
{
    if k < calls.len() {
        let rest = calls.drop_last();
        lemma_occurrences_skip(rest, k, id);
        assert(calls.skip(k) =~= rest.skip(k).push(calls.last()));
        lemma_occurrences_push(rest.skip(k), calls.last(), id);
    } else {
        assert(calls.skip(k) =~= Seq::<CallView>::empty());
    }
}

proof fn lemma_occurrences_newest(calls: Seq<CallView>, max: nat, id: Seq<char>)
    ensures
        occurrences(newest(calls, max), id) <= occurrences(calls, id),
        newest(calls, max).len() <= max,
{
    if calls.len() > max {
        lemma_occurrences_skip(calls, calls.len() - max, id);
    }
}

proof fn lemma_occurrences_without_first(calls: Seq<CallView>, gone: Seq<char>, id: Seq<char>)
    ensures
        id != gone ==> occurrences(without_first(calls, gone), id) == occurrences(calls, id),
        occurrences(calls, gone) <= 1 ==> occurrences(without_first(calls, gone), gone) == 0,
        without_first(calls, gone).len() <= calls.len(),
{
    lemma_position_of(calls, gone);
    match position_of(calls, gone) {
        Some(i) => {
            lemma_occurrences_remove(calls, i, id);
            lemma_occurrences_remove(calls, i, gone);
        },
        None => {
            lemma_occurrences_none(calls, gone);
        },
    }
}

proof fn lemma_without_keeps_order(q: QueueView, gone: Seq<char>)
    requires
        q.well_formed(),
    ensures
        q.without(gone).well_formed(),
        q.without(gone).times_present(gone) == 0,
        forall|id: Seq<char>|
            id != gone ==> #[trigger] q.without(gone).times_present(id) == q.times_present(id),
{
    let w = q.without(gone);
    assert(q.times_present(gone) <= 1);
    lemma_occurrences_without_first(q.completed, gone, gone);
    lemma_occurrences_without_first(q.skipped, gone, gone);
    assert forall|id: Seq<char>| id != gone implies #[trigger] w.times_present(id)
        == q.times_present(id) by {
        lemma_occurrences_without_first(q.completed, gone, id);
        lemma_occurrences_without_first(q.skipped, gone, id);
    }
    assert forall|id: Seq<char>| #[trigger] w.times_present(id) <= 1 by {
        if id != gone {
            assert(q.times_present(id) <= 1);
        }
    }
}

/// Adding a call keeps the queue in order.
pub proof fn law_add_call_keeps_order(
    q: QueueView,
    original_id: Seq<char>,
    location: Seq<char>,
    now: Timestamp,
)
    requires
        q.well_formed(),
    ensures
        q.with_call_added(original_id, location, now).well_formed(),
{
    let call = fresh_call(original_id, location, now);
    let cleared = q.without(call.id);
    let after = q.with_call_added(original_id, location, now);
    lemma_without_keeps_order(q, call.id);
    assert forall|id: Seq<char>| #[trigger] after.times_present(id) <= 1 by {
        assert(cleared.times_present(id) <= 1);
        match cleared.current {
            Some(previous) => {
                lemma_occurrences_push(cleared.completed, previous, id);
                lemma_occurrences_newest(cleared.completed.push(previous), q.max_completed, id);
            },
            None => {},
        }
    }
    match cleared.current {
        Some(previous) => {
            lemma_occurrences_newest(cleared.completed.push(previous), q.max_completed, call.id);
        },
        None => {},
    }
}

/// Skipping the current call keeps the queue in order.
pub proof fn law_skip_keeps_order(q: QueueView, now: Timestamp)
    requires
        q.well_formed(),
    ensures
        q.with_current_skipped(now).well_formed(),
{
    match q.current {
        Some(call) => {
            let cleared = q.without(call.id);
            let moved = CallView { timestamp: now, ..call };
            let after = q.with_current_skipped(now);
            lemma_without_keeps_order(q, call.id);
            lemma_occurrences_newest(cleared.skipped.push(moved), q.max_skipped, call.id);
            assert forall|id: Seq<char>| #[trigger] after.times_present(id) <= 1 by {
                assert(cleared.times_present(id) <= 1);
                lemma_occurrences_push(cleared.skipped, moved, id);
                lemma_occurrences_newest(cleared.skipped.push(moved), q.max_skipped, id);
            }
        },
        None => {},
    }
}

/// Completing the current call keeps the queue in order.
pub proof fn law_complete_keeps_order(q: QueueView, now: Timestamp)
    requires
        q.well_formed(),
    ensures
        q.with_current_completed(now).well_formed(),
{
    match q.current {
        Some(call) => {
            let cleared = q.without(call.id);
            let moved = CallView { timestamp: now, ..call };
            let after = q.with_current_completed(now);
            lemma_without_keeps_order(q, call.id);
            lemma_occurrences_newest(cleared.completed.push(moved), q.max_completed, call.id);
            assert forall|id: Seq<char>| #[trigger] after.times_present(id) <= 1 by {
                assert(cleared.times_present(id) <= 1);
                lemma_occurrences_push(cleared.completed, moved, id);
                lemma_occurrences_newest(cleared.completed.push(moved), q.max_completed, id);
            }
        },
        None => {},
    }
}

/// Putting a call among the skipped ones keeps the queue in order.
pub proof fn law_skip_directly_keeps_order(
    q: QueueView,
    original_id: Seq<char>,
    location: Seq<char>,
    now: Timestamp,
)
    requires
        q.well_formed(),
    ensures
        q.with_call_skipped(original_id, location, now).well_formed(),
{
    let call = fresh_call(original_id, location, now);
    let cleared = q.without(call.id);
    let after = q.with_call_skipped(original_id, location, now);
    lemma_without_keeps_order(q, call.id);
    lemma_occurrences_newest(cleared.skipped.push(call), q.max_skipped, call.id);
    assert forall|id: Seq<char>| #[trigger] after.times_present(id) <= 1 by {
        assert(cleared.times_present(id) <= 1);
        lemma_occurrences_push(cleared.skipped, call, id);
        lemma_occurrences_newest(cleared.skipped.push(call), q.max_skipped, id);
    }
}

/// The state of the queue.
#[derive(Debug)]
pub struct QueueManager {
    current_call: Option<Call>,
    completed_history: VecDeque<Call>,
    skipped_history: VecDeque<Call>,
    max_history_size: usize,
    max_skipped_history_size: usize,
}

impl View for QueueManager {
    type V = QueueView;

    closed spec fn view(&self) -> QueueView {
        QueueView {
            current: maybe_view(self.current_call),
            completed: call_views(self.completed_history@),
            skipped: call_views(self.skipped_history@),
            max_completed: self.max_history_size as nat,
            max_skipped: self.max_skipped_history_size as nat,
        }
    }
}

impl QueueManager {
    /// An empty queue with the given bounds on its two histories.
    pub fn new(max_history_size: usize, max_skipped_history_size: usize) -> (q: Self)
        ensures
            q@ == (QueueView {
                current: None,
                completed: Seq::empty(),
                skipped: Seq::empty(),
                max_completed: max_history_size as nat,
                max_skipped: max_skipped_history_size as nat,
            }),
    {
        let q = QueueManager {
            current_call: None,
            completed_history: VecDeque::new(),
            skipped_history: VecDeque::new(),
            max_history_size,
            max_skipped_history_size,
        };
        assert(q@.completed =~= Seq::empty());
        assert(q@.skipped =~= Seq::empty());
        q
    }

    /// Takes the call with the identifier `call_id` out of the queue, wherever
    /// it stands, and returns it.
    pub fn remove_call_from_all_queues(&mut self, call_id: &str) -> (found: Option<Call>)
        ensures
            final(self)@ == old(self)@.without(call_id@),
            maybe_view(found) == found_call(
                old(self)@.current,
                old(self)@.completed,
                old(self)@.skipped,
                call_id@,
            ),
    {
        let mut found: Option<Call> = None;
        let is_current = match &self.current_call {
            Some(current) => str_equal(current.id.as_str(), call_id),
            None => false,
        };
        if is_current {
            found = self.current_call.take();
        }
        let from_completed = remove_by_id(&mut self.completed_history, call_id);
        if found.is_none() {
            found = from_completed;
        }
        let from_skipped = remove_by_id(&mut self.skipped_history, call_id);
        if found.is_none() {
            found = from_skipped;
        }
        found
    }

    /// Makes the call with the given identifier and location the current one,
    /// at the time `now`.
    ///
    /// A call that the queue knows under the same standard identifier is taken
    /// from where it stands first. The call that was current moves to the
    /// completed ones, of which only the newest are kept.
    pub fn add_call_at(&mut self, original_id_param: String, location_param: String, now: Timestamp) -> (r:
        Option<&Call>)
        ensures
            final(self)@ == old(self)@.with_call_added(original_id_param@, location_param@, now),
            maybe_ref_view(r) == Some(fresh_call(original_id_param@, location_param@, now)),
    {
        let formatted_id = format_identifier(original_id_param.as_str());
        let _ = self.remove_call_from_all_queues(formatted_id.as_str());
        let call_to_add = Call {
            id: formatted_id,
            original_id: original_id_param,
            location: location_param,
            timestamp: now,
        };
        match self.current_call.take() {
            Some(previous) => {
                let ghost before = call_views(self.completed_history@);
                self.completed_history.push_back(previous);
                assert(call_views(self.completed_history@) =~= before.push(previous@));
                enforce_max_size(&mut self.completed_history, self.max_history_size);
            },
            None => {},
        }
        self.current_call = Some(call_to_add);
        self.current_call.as_ref()
    }

    /// Makes the call with the given identifier and location the current one,
    /// at the time the system clock shows.
    pub fn add_call(&mut self, original_id_param: String, location_param: String) -> (r: Option<
        &Call,
    >)
        ensures
            exists|now: Timestamp|
                final(self)@ == #[trigger] old(self)@.with_call_added(
                    original_id_param@,
                    location_param@,
                    now,
                ) && maybe_ref_view(r) == Some(
                    fresh_call(original_id_param@, location_param@, now),
                ),
    {
        let now = current_timestamp();
        self.add_call_at(original_id_param, location_param, now)
    }

    /// Moves the current call to the skipped ones, at the time `now`. Returns
    /// the call as it was moved, or `None` where no call was current.
    pub fn skip_current_call_at(&mut self, now: Timestamp) -> (r: Option<Call>)
        ensures
            final(self)@ == old(self)@.with_current_skipped(now),
            maybe_view(r) == match old(self)@.current {
                Some(call) => Some(CallView { timestamp: now, ..call }),
                None => None,
            },
    {
        match self.current_call.take() {
            Some(mut call_to_skip) => {
                let _ = self.remove_call_from_all_queues(call_to_skip.id.as_str());
                call_to_skip.timestamp = now;
                let ghost before = call_views(self.skipped_history@);
                self.skipped_history.push_back(call_to_skip.clone());
                assert(call_views(self.skipped_history@) =~= before.push(call_to_skip@));
                enforce_max_size(&mut self.skipped_history, self.max_skipped_history_size);
                Some(call_to_skip)
            },
            None => None,
        }
    }

    /// Moves the current call to the skipped ones, at the time the system
    /// clock shows.
    pub fn skip_current_call(&mut self) -> (r: Option<Call>)
        ensures
            exists|now: Timestamp|
                final(self)@ == #[trigger] old(self)@.with_current_skipped(now) && maybe_view(r)
                    == match old(self)@.current {
                    Some(call) => Some(CallView { timestamp: now, ..call }),
                    None => None,
                },
    {
        let now = current_timestamp();
        self.skip_current_call_at(now)
    }

    /// Moves the current call to the completed ones, at the time `now`.
    /// Returns the call as it was moved, or `None` where no call was current.
    pub fn complete_current_call_at(&mut self, now: Timestamp) -> (r: Option<Call>)
        ensures
            final(self)@ == old(self)@.with_current_completed(now),
            maybe_view(r) == match old(self)@.current {
                Some(call) => Some(CallView { timestamp: now, ..call }),
                None => None,
            },
    {
        match self.current_call.take() {
            Some(mut call_to_complete) => {
                let _ = self.remove_call_from_all_queues(call_to_complete.id.as_str());
                call_to_complete.timestamp = now;
                let ghost before = call_views(self.completed_history@);
                self.completed_history.push_back(call_to_complete.clone());
                assert(call_views(self.completed_history@) =~= before.push(call_to_complete@));
                enforce_max_size(&mut self.completed_history, self.max_history_size);
                Some(call_to_complete)
            },
            None => None,
        }
    }

    /// Moves the current call to the completed ones, at the time the system
    /// clock shows.
    pub fn complete_current_call(&mut self) -> (r: Option<Call>)
        ensures
            exists|now: Timestamp|
                final(self)@ == #[trigger] old(self)@.with_current_completed(now) && maybe_view(r)
                    == match old(self)@.current {
                    Some(call) => Some(CallView { timestamp: now, ..call }),
                    None => None,
                },
    {
        let now = current_timestamp();
        self.complete_current_call_at(now)
    }

    /// Puts a call among the skipped ones without making it current, at the
    /// time `now`. A call that the queue knows under the same standard
    /// identifier is taken from where it stands first.
    pub fn add_to_skipped_directly_at(
        &mut self,
        original_id_param: String,
        location_param: String,
        now: Timestamp,
    ) -> (r: Option<Call>)
        ensures
            final(self)@ == old(self)@.with_call_skipped(original_id_param@, location_param@, now),
            maybe_view(r) == Some(fresh_call(original_id_param@, location_param@, now)),
    {
        let formatted_id = format_identifier(original_id_param.as_str());
        let _ = self.remove_call_from_all_queues(formatted_id.as_str());
        let call_data = Call {
            id: formatted_id,
            original_id: original_id_param,
            location: location_param,
            timestamp: now,
        };
        let ghost before = call_views(self.skipped_history@);
        self.skipped_history.push_back(call_data.clone());
        assert(call_views(self.skipped_history@) =~= before.push(call_data@));
        enforce_max_size(&mut self.skipped_history, self.max_skipped_history_size);
        Some(call_data)
    }

    /// Puts a call among the skipped ones without making it current, at the
    /// time the system clock shows.
    pub fn add_to_skipped_directly(&mut self, original_id_param: String, location_param: String) -> (r:
        Option<Call>)
        ensures
            exists|now: Timestamp|
                final(self)@ == #[trigger] old(self)@.with_call_skipped(
                    original_id_param@,
                    location_param@,
                    now,
                ) && maybe_view(r) == Some(fresh_call(original_id_param@, location_param@, now)),
    {
        let now = current_timestamp();
        self.add_to_skipped_directly_at(original_id_param, location_param, now)
    }

    /// The call that is being served.
    pub fn get_current_call(&self) -> (r: Option<&Call>)
        ensures
            match r {
                Some(call) => self@.current == Some(call@),
                None => self@.current is None,
            },
    {
        self.current_call.as_ref()
    }

    /// The completed calls, oldest first.
    pub fn get_completed_history(&self) -> (r: &VecDeque<Call>)
        ensures
            call_views(r@) == self@.completed,
    {
        &self.completed_history
    }

    /// The skipped calls, oldest first.
    pub fn get_skipped_history(&self) -> (r: &VecDeque<Call>)
        ensures
            call_views(r@) == self@.skipped,
    {
        &self.skipped_history
    }

    /// A copy of the queue for its consumers.
    pub fn snapshot(&self) -> (state: QueueState)
        ensures
            maybe_view(state.current_call) == self@.current,
            call_views(state.completed_history@) == self@.completed,
            call_views(state.skipped_history@) == self@.skipped,
    {
        QueueState {
            current_call: match &self.current_call {
                Some(call) => Some(call.clone()),
                None => None,
            },
            completed_history: copy_of(&self.completed_history),
            skipped_history: copy_of(&self.skipped_history),
        }
    }
}

/// A copy of a history.
fn copy_of(history: &VecDeque<Call>) -> (copy: VecDeque<Call>)
    ensures
        call_views(copy@) == call_views(history@),
{
    let mut copy: VecDeque<Call> = VecDeque::new();
    let mut i: usize = 0;
    while i < history.len()
        invariant
            i <= history.len(),
            call_views(copy@) == call_views(history@).take(i as int),
        decreases history.len() - i,
    {
        let ghost before = call_views(copy@);
        copy.push_back(history[i].clone());
        assert(call_views(copy@) =~= before.push(history@[i as int]@));
        assert(call_views(history@).take(i + 1) =~= call_views(history@).take(i as int).push(
            history@[i as int]@,
        ));
        i += 1;
    }
    assert(call_views(history@).take(i as int) =~= call_views(history@));
    copy
}

} // verus!
