//! The announcement slots: which pre-recorded announcement is on, when the
//! next one may be asked for by hand, and what the displays are told.
//!
//! The directory listings come from the caller, and so does the time: a
//! reading, in nanoseconds, of a clock that never runs backwards.

use vstd::prelude::*;
use vstd::seq_lib::{to_multiset_build, to_multiset_insert, lemma_multiset_commutative};
use crate::cache::{path_segments, segments_of, stripped_prefix, strip_base};
use crate::config::AppConfig;
use crate::segment::views;
use crate::text::{
    lowercase, to_lowercase, text_le, texts_ordered, str_le, lemma_text_le_total,
    lemma_text_le_transitive, rows, replaced, replace_char, chars_of, string_of_chars,
    string_of_range, str_equal, decimal_text, decimal_string, concat,
};

verus! {

/// One announcement: a directory of audio files that are played together.
#[derive(Debug, Clone, PartialEq, Eq)]
pub struct AnnouncementSlot {
    /// The name of the directory.
    pub id: String,
    /// The paths of the audio files, in dictionary order.
    pub audio_files: Vec<String>,
}

/// A slot as the displays are told of it.
#[derive(Debug, Clone, PartialEq, Eq)]
pub struct AnnouncementSlotSummary {
    pub id: String,
    /// The URLs of the audio files of the slot.
    pub audio_playlist: Vec<String>,
}

/// What the displays are told of the announcements.
#[derive(Debug, Clone, PartialEq, Eq)]
pub struct AnnouncementStatus {
    /// The slot that is on, if there is any.
    pub current_slot_id: Option<String>,
    /// The URLs of the audio files of that slot.
    pub current_audio_playlist: Vec<String>,
    /// The URLs of the banners.
    pub current_banner_playlist: Vec<String>,
    /// Seconds a banner stays on the display.
    pub banner_cycle_interval_seconds: u64,
    /// Seconds that must pass between two manual triggers.
    pub cooldown_seconds: u64,
    /// Seconds until the next manual trigger is accepted.
    pub cooldown_remaining_seconds: u64,
    /// Whether a manual trigger would be turned down now.
    pub cooldown_active: bool,
    /// All slots.
    pub available_slots: Vec<AnnouncementSlotSummary>,
}

/// Why a manual trigger was turned down.
#[derive(Debug, PartialEq, Eq)]
pub enum ManualTriggerError {
    /// The last manual trigger is too recent.
    CooldownActive { remaining_seconds: u64 },
    /// No slot has the identifier asked for.
    SlotNotFound(String),
    /// There are no slots at all.
    NoSlotsAvailable,
}

/// The words of a `ManualTriggerError`.
pub open spec fn manual_trigger_error_text(err: ManualTriggerError) -> Seq<char> {
    match err {
        ManualTriggerError::CooldownActive { remaining_seconds } => "Manual trigger is on cooldown ("@
            + decimal_text(remaining_seconds as nat) + " seconds remaining)"@,
        ManualTriggerError::SlotNotFound(slot_id) => "Announcement slot '"@ + slot_id@
            + "' was not found"@,
        ManualTriggerError::NoSlotsAvailable => "No announcement slots are available to trigger"@,
    }
}

impl ManualTriggerError {
    /// The error in words.
    pub fn message(&self) -> (text: String)
        ensures
            text@ == manual_trigger_error_text(*self),
    {
        match self {
            ManualTriggerError::CooldownActive { remaining_seconds } => {
                let mut text = concat(
                    "Manual trigger is on cooldown (",
                    decimal_string(*remaining_seconds as u128).as_str(),
                );
                text.append(" seconds remaining)");
                text
            },
            ManualTriggerError::SlotNotFound(slot_id) => {
                let mut text = concat("Announcement slot '", slot_id.as_str());
                text.append("' was not found");
                text
            },
            ManualTriggerError::NoSlotsAvailable => String::from_str(
                "No announcement slots are available to trigger",
            ),
        }
    }
}

/// The index of the last dot of a name, if it holds one.
pub open spec fn last_dot(name: Seq<char>) -> Option<int>
    decreases name.len(),
{
    if name.len() == 0 {
        None
    } else if name.last() == '.' {
        Some(name.len() - 1)
    } else {
        last_dot(name.drop_last())
    }
}

/// The extension of the file at `path`: what follows the last dot of its
/// name. A path without a name, a name without a dot, and a name whose only
/// dot is its first character have none.
pub open spec fn extension_of(path: Seq<char>) -> Option<Seq<char>> {
    let segments = path_segments(path);
    if segments.len() == 0 || segments.last() == ".."@ {
        None
    } else {
        let name = segments.last();
        match last_dot(name) {
            Some(i) => if i == 0 {
                None
            } else {
                Some(name.skip(i + 1))
            },
            None => None,
        }
    }
}

/// Whether a lower-case extension names a supported audio format.
pub open spec fn is_audio_extension(lowered: Seq<char>) -> bool {
    lowered == "mp3"@ || lowered == "wav"@ || lowered == "ogg"@
}

/// Whether a lower-case extension names a supported banner format, image or
/// video.
pub open spec fn is_banner_extension(lowered: Seq<char>) -> bool {
    lowered == "jpg"@ || lowered == "jpeg"@ || lowered == "png"@ || lowered == "gif"@ || lowered
        == "webp"@ || lowered == "svg"@ || lowered == "mp4"@ || lowered == "webm"@ || lowered
        == "ogg"@ || lowered == "mov"@
}

/// Whether the file at `path` is a supported audio file.
pub open spec fn is_supported_audio(path: Seq<char>) -> bool {
    extension_of(path) matches Some(ext) && is_audio_extension(lowercase(ext))
}

/// Whether the file at `path` is a supported banner.
pub open spec fn is_supported_banner(path: Seq<char>) -> bool {
    extension_of(path) matches Some(ext) && is_banner_extension(lowercase(ext))
}

/// The index of the last dot of a name.
fn find_last_dot(name: &Vec<char>) -> (r: Option<usize>)
    ensures
        match r {
            Some(i) => last_dot(name@) == Some(i as int) && i < name.len(),
            None => last_dot(name@) is None,
        },
{
    let mut n: usize = name.len();
    assert(name@.take(n as int) =~= name@);
    while n > 0
        invariant
            n <= name.len(),
            last_dot(name@) == last_dot(name@.take(n as int)),
        decreases n,
    {
        if name[n - 1] == '.' {
            return Some(n - 1);
        }
        assert(name@.take(n as int).drop_last() =~= name@.take(n - 1));
        n -= 1;
    }
    None
}

/// The extension of the file at `path`.
pub fn file_extension(path: &str) -> (r: Option<String>)
    ensures
        match r {
            Some(ext) => extension_of(path@) == Some(ext@),
            None => extension_of(path@) is None,
        },
{
    let segments = segments_of(&chars_of(path));
    if segments.len() == 0 {
        return None;
    }
    let name = &segments[segments.len() - 1];
    assert(rows(segments@).last() == name@);
    if crate::text::chars_equal(name, &chars_of("..")) {
        return None;
    }
    match find_last_dot(name) {
        Some(i) => {
            if i == 0 {
                None
            } else {
                let ext = string_of_range(name, i + 1, name.len());
                assert(name@.subrange(i + 1, name@.len() as int) =~= name@.skip(i + 1));
                Some(ext)
            }
        },
        None => None,
    }
}

/// Whether a lower-case extension names a supported audio format.
pub fn audio_extension_supported(lowered: &str) -> (r: bool)
    ensures
        r == is_audio_extension(lowered@),
{
    str_equal(lowered, "mp3") || str_equal(lowered, "wav") || str_equal(lowered, "ogg")
}

/// Whether a lower-case extension names a supported banner format.
pub fn banner_extension_supported(lowered: &str) -> (r: bool)
    ensures
        r == is_banner_extension(lowered@),
{
    str_equal(lowered, "jpg") || str_equal(lowered, "jpeg") || str_equal(lowered, "png")
        || str_equal(lowered, "gif") || str_equal(lowered, "webp") || str_equal(lowered, "svg")
        || str_equal(lowered, "mp4") || str_equal(lowered, "webm") || str_equal(lowered, "ogg")
        || str_equal(lowered, "mov")
}

/// Whether the file at `path` is a supported audio file, by its extension.
pub fn is_supported_audio_file(path: &str) -> (r: bool)
    ensures
        r == is_supported_audio(path@),
{
    match file_extension(path) {
        Some(ext) => audio_extension_supported(to_lowercase(ext.as_str()).as_str()),
        None => false,
    }
}

/// Whether the file at `path` is a supported banner, by its extension.
pub fn is_supported_banner_file(path: &str) -> (r: bool)
    ensures
        r == is_supported_banner(path@),
{
    match file_extension(path) {
        Some(ext) => banner_extension_supported(to_lowercase(ext.as_str()).as_str()),
        None => false,
    }
}

/// Puts paths into dictionary order.
pub fn sort_paths(paths: Vec<String>) -> (sorted: Vec<String>)
    ensures
        sorted@.to_multiset() == paths@.to_multiset(),
        sorted.len() == paths.len(),
        texts_ordered(views(sorted@)),
{
    let mut rest = paths;
    let mut sorted: Vec<String> = Vec::new();
    let ghost all = rest@;
    proof {
        assert(sorted@ + rest@ =~= all);
    }
    while rest.len() > 0
        invariant
            (sorted@ + rest@).to_multiset() == all.to_multiset(),
            sorted.len() + rest.len() == all.len(),
            texts_ordered(views(sorted@)),
        decreases rest.len(),
    {
        let ghost before_rest = rest@;
        let ghost before_sorted = sorted@;
        let path = rest.pop().unwrap();
        let mut at: usize = 0;
        while at < sorted.len() && !str_le(path.as_str(), sorted[at].as_str())
            invariant
                at <= sorted.len(),
                forall|k: int| 0 <= k < at ==> !text_le(path@, #[trigger] sorted@[k]@),
            decreases sorted.len() - at,
        {
            at += 1;
        }
        sorted.insert(at, path);
        proof {
            assert(before_rest =~= rest@.push(path));
            lemma_multiset_commutative(before_sorted, before_rest);
            lemma_multiset_commutative(sorted@, rest@);
            to_multiset_build(rest@, path);
            to_multiset_insert(before_sorted, at as int, path);
            assert((sorted@ + rest@).to_multiset() =~= (before_sorted + before_rest).to_multiset());
            let old_views = views(before_sorted);
            let new_views = views(sorted@);
            assert forall|i: int, j: int| 0 <= i < j < new_views.len() implies text_le(
                new_views[i],
                new_views[j],
            ) by {
                if i < at && j > at {
                    assert(new_views[i] == old_views[i]);
                    assert(new_views[j] == old_views[j - 1]);
                } else if i > at {
                    assert(new_views[i] == old_views[i - 1]);
                    assert(new_views[j] == old_views[j - 1]);
                } else if j < at {
                    assert(new_views[i] == old_views[i]);
                    assert(new_views[j] == old_views[j]);
                } else if i == at {
                    assert(new_views[j] == old_views[j - 1]);
                    assert(text_le(path@, old_views[at as int]));
                    if j - 1 > at {
                        lemma_text_le_transitive(path@, old_views[at as int], old_views[j - 1]);
                    }
                } else {
                    assert(j == at);
                    assert(new_views[i] == old_views[i]);
                    assert(!text_le(path@, before_sorted[i]@));
                    lemma_text_le_total(path@, old_views[i]);
                }
            }
        }
    }
    proof {
        assert(sorted@ + rest@ =~= sorted@);
    }
    sorted
}

/// One entry of a directory listing.
#[derive(Debug, Clone, PartialEq, Eq)]
pub struct ListedEntry {
    /// The path of the entry.
    pub path: String,
    /// Whether the entry is a regular file.
    pub is_file: bool,
}

/// A directory below the announcement root, with what it holds.
#[derive(Debug, Clone, PartialEq, Eq)]
pub struct ListedDirectory {
    /// The path of the directory.
    pub path: String,
    /// The entries of the directory, in the order in which they were read.
    pub entries: Vec<ListedEntry>,
}

/// The paths of the supported audio files among the entries, in their order.
pub open spec fn audio_paths(entries: Seq<ListedEntry>) -> Seq<String>
    decreases entries.len(),
{
    if entries.len() == 0 {
        Seq::<String>::empty()
    } else {
        let before = audio_paths(entries.drop_last());
        if entries.last().is_file && is_supported_audio(entries.last().path@) {
            before.push(entries.last().path)
        } else {
            before
        }
    }
}

/// The paths of the supported banners among the entries, in their order.
pub open spec fn banner_paths(entries: Seq<ListedEntry>) -> Seq<String>
    decreases entries.len(),
{
    if entries.len() == 0 {
        Seq::<String>::empty()
    } else {
        let before = banner_paths(entries.drop_last());
        if entries.last().is_file && is_supported_banner(entries.last().path@) {
            before.push(entries.last().path)
        } else {
            before
        }
    }
}

/// The name of the directory at `path`: its last segment, or nothing.
pub open spec fn directory_name(path: Seq<char>) -> Seq<char> {
    let segments = path_segments(path);
    if segments.len() == 0 {
        Seq::<char>::empty()
    } else {
        segments.last()
    }
}

/// `slot` is the slot that the directory `dir` makes: it is named after the
/// directory and holds the supported audio files of the directory, each once,
/// in dictionary order.
pub open spec fn is_slot_of(slot: AnnouncementSlot, dir: ListedDirectory) -> bool {
    &&& slot.id@ == directory_name(dir.path@)
    &&& slot.audio_files@.to_multiset() == audio_paths(dir.entries@).to_multiset()
    &&& texts_ordered(views(slot.audio_files@))
}

/// The directories that make a slot: those with at least one supported audio
/// file, in the order of the listing.
pub open spec fn slot_directories(listing: Seq<ListedDirectory>) -> Seq<ListedDirectory> {
    listing.filter(|dir: ListedDirectory| audio_paths(dir.entries@).len() > 0)
}

/// The paths of the supported audio files among the entries.
fn supported_audio_paths(entries: &Vec<ListedEntry>) -> (paths: Vec<String>)
    ensures
        paths@ == audio_paths(entries@),
{
    let mut paths: Vec<String> = Vec::new();
    let mut i: usize = 0;
    assert(entries@.take(0) =~= Seq::<ListedEntry>::empty());
    while i < entries.len()
        invariant
            i <= entries.len(),
            paths@ == audio_paths(entries@.take(i as int)),
        decreases entries.len() - i,
    {
        let entry = &entries[i];
        proof {
            let next = entries@.take(i + 1);
            assert(next.drop_last() =~= entries@.take(i as int));
            assert(next.last() == *entry);
        }
        if entry.is_file && is_supported_audio_file(entry.path.as_str()) {
            paths.push(entry.path.clone());
        }
        i += 1;
    }
    assert(entries@.take(i as int) == entries@);
    paths
}

/// The name of the directory at `path`.
fn directory_name_of(path: &str) -> (name: String)
    ensures
        name@ == directory_name(path@),
{
    let segments = segments_of(&chars_of(path));
    if segments.len() == 0 {
        String::new()
    } else {
        assert(rows(segments@).last() == segments@[segments.len() - 1]@);
        string_of_chars(&segments[segments.len() - 1])
    }
}

/// Makes the announcement slots out of a listing of the announcement root.
///
/// Each directory with at least one supported audio file (`mp3`, `wav` or
/// `ogg`, in any case) makes one slot; the others make none. The slots come
/// in the order of the listing.
pub fn scan_announcement_slots(listing: &Vec<ListedDirectory>) -> (slots: Vec<AnnouncementSlot>)
    ensures
        slots.len() == slot_directories(listing@).len(),
        forall|i: int|
            0 <= i < slots.len() ==> is_slot_of(#[trigger] slots@[i], slot_directories(listing@)[i]),
{
    let mut slots: Vec<AnnouncementSlot> = Vec::new();
    let mut i: usize = 0;
    let ghost pred = |dir: ListedDirectory| audio_paths(dir.entries@).len() > 0;
    proof {
        reveal(Seq::filter);
        assert(listing@.take(0) =~= Seq::<ListedDirectory>::empty());
    }
    while i < listing.len()
        invariant
            i <= listing.len(),
            pred == |dir: ListedDirectory| audio_paths(dir.entries@).len() > 0,
            slots.len() == listing@.take(i as int).filter(pred).len(),
            forall|k: int|
                0 <= k < slots.len() ==> is_slot_of(
                    #[trigger] slots@[k],
                    listing@.take(i as int).filter(pred)[k],
                ),
        decreases listing.len() - i,
    {
        let dir = &listing[i];
        let ghost done = listing@.take(i as int).filter(pred);
        proof {
            reveal(Seq::filter);
            let next = listing@.take(i + 1);
            assert(next.drop_last() =~= listing@.take(i as int));
            assert(next.last() == *dir);
        }
        let audio_files = supported_audio_paths(&dir.entries);
        if audio_files.len() > 0 {
            let audio_files = sort_paths(audio_files);
            let slot = AnnouncementSlot { id: directory_name_of(dir.path.as_str()), audio_files };
            slots.push(slot);
            assert(listing@.take(i + 1).filter(pred) == done.push(*dir));
        }
        i += 1;
    }
    assert(listing@.take(i as int) == listing@);
    slots
}

/// Collects the banners out of a listing of the banner root and of the
/// directories right below it: the regular files of a supported format, in
/// dictionary order of their paths.
pub fn scan_banner_files(entries: &Vec<ListedEntry>) -> (banners: Vec<String>)
    ensures
        banners@.to_multiset() == banner_paths(entries@).to_multiset(),
        texts_ordered(views(banners@)),
{
    let mut paths: Vec<String> = Vec::new();
    let mut i: usize = 0;
    assert(entries@.take(0) =~= Seq::<ListedEntry>::empty());
    while i < entries.len()
        invariant
            i <= entries.len(),
            paths@ == banner_paths(entries@.take(i as int)),
        decreases entries.len() - i,
    {
        let entry = &entries[i];
        proof {
            let next = entries@.take(i + 1);
            assert(next.drop_last() =~= entries@.take(i as int));
            assert(next.last() == *entry);
        }
        if entry.is_file && is_supported_banner_file(entry.path.as_str()) {
            paths.push(entry.path.clone());
        }
        i += 1;
    }
    assert(entries@.take(i as int) == entries@);
    sort_paths(paths)
}

/// The slots are in dictionary order of their identifiers.
pub open spec fn slots_ordered(slots: Seq<AnnouncementSlot>) -> bool {
    forall|i: int, j: int| 0 <= i < j < slots.len() ==> text_le(slots[i].id@, slots[j].id@)
}

/// Puts slots into dictionary order of their identifiers.
pub fn sort_slots(slots: Vec<AnnouncementSlot>) -> (sorted: Vec<AnnouncementSlot>)
    ensures
        sorted@.to_multiset() == slots@.to_multiset(),
        sorted.len() == slots.len(),
        slots_ordered(sorted@),
{
    let mut rest = slots;
    let mut sorted: Vec<AnnouncementSlot> = Vec::new();
    let ghost all = rest@;
    proof {
        assert(sorted@ + rest@ =~= all);
    }
    while rest.len() > 0
        invariant
            (sorted@ + rest@).to_multiset() == all.to_multiset(),
            sorted.len() + rest.len() == all.len(),
            slots_ordered(sorted@),
        decreases rest.len(),
    {
        let ghost before_rest = rest@;
        let ghost before_sorted = sorted@;
        let slot = rest.pop().unwrap();
        let mut at: usize = 0;
        while at < sorted.len() && !str_le(slot.id.as_str(), sorted[at].id.as_str())
            invariant
                at <= sorted.len(),
                forall|k: int| 0 <= k < at ==> !text_le(slot.id@, (#[trigger] sorted@[k]).id@),
            decreases sorted.len() - at,
        {
            at += 1;
        }
        sorted.insert(at, slot);
        proof {
            assert(before_rest =~= rest@.push(slot));
            lemma_multiset_commutative(before_sorted, before_rest);
            lemma_multiset_commutative(sorted@, rest@);
            to_multiset_build(rest@, slot);
            to_multiset_insert(before_sorted, at as int, slot);
            assert((sorted@ + rest@).to_multiset() =~= (before_sorted + before_rest).to_multiset());
            assert forall|i: int, j: int| 0 <= i < j < sorted@.len() implies text_le(
                sorted@[i].id@,
                sorted@[j].id@,
            ) by {
                if i < at && j > at {
                    assert(sorted@[i] == before_sorted[i]);
                    assert(sorted@[j] == before_sorted[j - 1]);
                } else if i > at {
                    assert(sorted@[i] == before_sorted[i - 1]);
                    assert(sorted@[j] == before_sorted[j - 1]);
                } else if j < at {
                    assert(sorted@[i] == before_sorted[i]);
                    assert(sorted@[j] == before_sorted[j]);
                } else if i == at {
                    assert(sorted@[j] == before_sorted[j - 1]);
                    assert(text_le(slot.id@, before_sorted[at as int].id@));
                    if j - 1 > at {
                        lemma_text_le_transitive(
                            slot.id@,
                            before_sorted[at as int].id@,
                            before_sorted[j - 1].id@,
                        );
                    }
                } else {
                    assert(j == at);
                    assert(sorted@[i] == before_sorted[i]);
                    lemma_text_le_total(slot.id@, before_sorted[i].id@);
                }
            }
        }
    }
    proof {
        assert(sorted@ + rest@ =~= sorted@);
    }
    sorted
}

/// Nanoseconds in a second.
pub const NANOS_PER_SECOND: u64 = 1_000_000_000;

/// The seconds for which manual triggers are still turned down, or `None`
/// where the next one is accepted. `last` and `now` are clock readings in
/// nanoseconds; a `now` before `last` counts as no time passed.
pub open spec fn cooldown_remaining(cooldown_seconds: u64, last: u64, now: u64) -> Option<u64> {
    let elapsed: int = if now >= last {
        now - last
    } else {
        0
    };
    if cooldown_seconds == 0 || elapsed >= cooldown_seconds * NANOS_PER_SECOND {
        None
    } else {
        Some((cooldown_seconds - elapsed / (NANOS_PER_SECOND as int)) as u64)
    }
}

/// The clock reading that stands for the last manual trigger in a manager
/// made at `now`: one cooldown before `now`, so that the first trigger is
/// accepted at once, as far as the clock reaches back.
pub open spec fn initial_last_trigger(cooldown_seconds: u64, now: u64) -> u64 {
    if cooldown_seconds * NANOS_PER_SECOND <= now {
        (now - cooldown_seconds * NANOS_PER_SECOND) as u64
    } else {
        now
    }
}

/// A path without the slashes at its start.
pub open spec fn without_leading_slashes(s: Seq<char>) -> Seq<char>
    decreases s.len(),
{
    if s.len() > 0 && s[0] == '/' {
        without_leading_slashes(s.drop_first())
    } else {
        s
    }
}

/// The URL of a file below the serving directory: a single `/`, then the path
/// of the file from that directory on, with `/` for every backslash. `None`
/// for a file that is not below the serving directory.
pub open spec fn web_path_of(file_path: Seq<char>, serve_dir_path: Seq<char>) -> Option<Seq<char>> {
    match stripped_prefix(file_path, serve_dir_path) {
        Some(relative) => Some(
            seq!['/'] + replaced(without_leading_slashes(relative), '\\', '/'),
        ),
        None => None,
    }
}

/// Cutting off a run of slashes at the start is all that
/// `without_leading_slashes` does.
proof fn lemma_without_leading_slashes(s: Seq<char>, n: int)
    requires
        0 <= n <= s.len(),
        forall|i: int| 0 <= i < n ==> #[trigger] s[i] == '/',
        n < s.len() ==> s[n] != '/',
    ensures
        without_leading_slashes(s) == s.skip(n),
    decreases n,
{
    if n == 0 {
        assert(s.skip(0) =~= s);
    } else {
        let t = s.drop_first();
        assert forall|i: int| 0 <= i < n - 1 implies #[trigger] t[i] == '/' by {
            assert(t[i] == s[i + 1]);
        }
        lemma_without_leading_slashes(t, n - 1);
        assert(t.skip(n - 1) =~= s.skip(n));
    }
}

/// The URLs of those files that lie below the serving directory, in the order
/// of the files.
pub open spec fn web_playlist(files: Seq<Seq<char>>, serve_dir_path: Seq<char>) -> Seq<Seq<char>>
    decreases files.len(),
{
    if files.len() == 0 {
        Seq::<Seq<char>>::empty()
    } else {
        let before = web_playlist(files.drop_last(), serve_dir_path);
        match web_path_of(files.last(), serve_dir_path) {
            Some(url) => before.push(url),
            None => before,
        }
    }
}

/// The slot after the one at `index`, going round.
pub open spec fn next_slot_index(index: nat, count: nat) -> nat {
    if count == 0 {
        index
    } else {
        (index + 1) % count
    }
}

/// The index of the first slot with the identifier `slot_id`.
pub open spec fn slot_position(slots: Seq<AnnouncementSlot>, slot_id: Seq<char>) -> Option<int> {
    if exists|i: int| 0 <= i < slots.len() && slots[i].id@ == slot_id {
        Some(
            choose|i: int|
                0 <= i < slots.len() && slots[i].id@ == slot_id && forall|k: int|
                    0 <= k < i ==> (#[trigger] slots[k]).id@ != slot_id,
        )
    } else {
        None
    }
}

/// The seconds for which manual triggers are still turned down.
pub fn manual_cooldown_remaining(cooldown_seconds: u64, last: u64, now: u64) -> (r: Option<u64>)
    ensures
        r == cooldown_remaining(cooldown_seconds, last, now),
{
    if cooldown_seconds == 0 {
        return None;
    }
    let elapsed: u64 = if now >= last {
        now - last
    } else {
        0
    };
    let elapsed_seconds: u64 = elapsed / NANOS_PER_SECOND;
    assert(elapsed >= cooldown_seconds * NANOS_PER_SECOND <==> elapsed_seconds >= cooldown_seconds)
        by (nonlinear_arith)
        requires
            elapsed_seconds == elapsed / 1_000_000_000,
            NANOS_PER_SECOND == 1_000_000_000,
    ;
    if elapsed_seconds >= cooldown_seconds {
        None
    } else {
        Some(cooldown_seconds - elapsed_seconds)
    }
}

/// The URL of a file below the serving directory.
pub fn to_web_accessible_path(file_path: &str, serve_dir_path: &str) -> (r: Option<String>)
    ensures
        match r {
            Some(url) => web_path_of(file_path@, serve_dir_path@) == Some(url@),
            None => web_path_of(file_path@, serve_dir_path@) is None,
        },
{
    match strip_base(file_path, serve_dir_path) {
        Some(relative) => {
            let chars = chars_of(relative.as_str());
            let mut from: usize = 0;
            while from < chars.len() && chars[from] == '/'
                invariant
                    from <= chars.len(),
                    forall|i: int| 0 <= i < from ==> #[trigger] chars@[i] == '/',
                decreases chars.len() - from,
            {
                from += 1;
            }
            let mut kept: Vec<char> = Vec::new();
            let mut i: usize = from;
            while i < chars.len()
                invariant
                    from <= i <= chars.len(),
                    kept@ == chars@.subrange(from as int, i as int),
                decreases chars.len() - i,
            {
                kept.push(chars[i]);
                i += 1;
            }
            proof {
                lemma_without_leading_slashes(chars@, from as int);
                assert(chars@.subrange(from as int, chars@.len() as int) =~= chars@.skip(
                    from as int,
                ));
            }
            let slashed = replace_char(&kept, '\\', '/');
            let mut url = String::from_str("/");
            url.append(string_of_chars(&slashed).as_str());
            proof {
                reveal_strlit("/");
                assert("/"@ =~= seq!['/']);
            }
            Some(url)
        },
        None => None,
    }
}

/// The URLs of those files that lie below the serving directory.
pub fn web_playlist_of(files: &Vec<String>, serve_dir_path: &str) -> (urls: Vec<String>)
    ensures
        views(urls@) == web_playlist(views(files@), serve_dir_path@),
{
    let mut urls: Vec<String> = Vec::new();
    let mut i: usize = 0;
    let ghost all = views(files@);
    assert(all.take(0) =~= Seq::<Seq<char>>::empty());
    assert(views(urls@) =~= Seq::<Seq<char>>::empty());
    while i < files.len()
        invariant
            i <= files.len(),
            all == views(files@),
            views(urls@) == web_playlist(all.take(i as int), serve_dir_path@),
        decreases files.len() - i,
    {
        let ghost before = views(urls@);
        proof {
            let next = all.take(i + 1);
            assert(next.drop_last() =~= all.take(i as int));
            assert(next.last() == files@[i as int]@);
        }
        match to_web_accessible_path(files[i].as_str(), serve_dir_path) {
            Some(url) => {
                urls.push(url);
                assert(views(urls@) =~= before.push(url@));
            },
            None => {},
        }
        i += 1;
    }
    assert(all.take(i as int) == all);
    urls
}

/// The announcement slots and which of them is on.
#[derive(Debug)]
pub struct AnnouncementManager {
    config: AppConfig,
    slots: Vec<AnnouncementSlot>,
    banner_files: Vec<String>,
    current_slot_index: usize,
    last_manual_trigger: u64,
}

impl AnnouncementManager {
    /// The slots, in dictionary order of their identifiers.
    pub closed spec fn slots(&self) -> Seq<AnnouncementSlot> {
        self.slots@
    }

    /// The banners.
    pub closed spec fn banners(&self) -> Seq<String> {
        self.banner_files@
    }

    /// The index of the slot that is on.
    pub closed spec fn index(&self) -> nat {
        self.current_slot_index as nat
    }

    /// The clock reading of the last manual trigger.
    pub closed spec fn last_trigger(&self) -> u64 {
        self.last_manual_trigger
    }

    /// The settings.
    pub closed spec fn settings(&self) -> AppConfig {
        self.config
    }

    /// The index of the slot that is on is the index of a slot, as long as
    /// there is any slot.
    #[verifier::type_invariant]
    spec fn index_in_range(self) -> bool {
        self.slots@.len() > 0 ==> self.current_slot_index < self.slots@.len()
    }


    /// A manager of the given slots and banners, made at the clock reading
    /// `now`. The first slot in dictionary order is on.
    pub fn new(
        config: AppConfig,
        slots: Vec<AnnouncementSlot>,
        banner_files: Vec<String>,
        now: u64,
    ) -> (manager: Self)
        ensures
            manager.slots().to_multiset() == slots@.to_multiset(),
            slots_ordered(manager.slots()),
            manager.banners() == banner_files@,
            manager.index() == 0,
            manager.settings() == config,
            manager.last_trigger() == initial_last_trigger(
                config.announcement_manual_trigger_cooldown_seconds,
                now,
            ),
    {
        let cooldown = config.announcement_manual_trigger_cooldown_seconds;
        let last_manual_trigger = if cooldown <= now / NANOS_PER_SECOND {
            assert(cooldown * NANOS_PER_SECOND <= now) by (nonlinear_arith)
                requires
                    cooldown <= now / 1_000_000_000,
                    NANOS_PER_SECOND == 1_000_000_000,
            ;
            now - cooldown * NANOS_PER_SECOND
        } else {
            assert(cooldown * NANOS_PER_SECOND > now) by (nonlinear_arith)
                requires
                    cooldown > now / 1_000_000_000,
                    NANOS_PER_SECOND == 1_000_000_000,
            ;
            now
        };
        AnnouncementManager {
            config,
            slots: sort_slots(slots),
            banner_files,
            current_slot_index: 0,
            last_manual_trigger,
        }
    }

    /// The seconds for which manual triggers are still turned down at `now`.
    pub fn manual_cooldown_remaining_seconds(&self, now: u64) -> (r: Option<u64>)
        ensures
            r == cooldown_remaining(
                self.settings().announcement_manual_trigger_cooldown_seconds,
                self.last_trigger(),
                now,
            ),
    {
        manual_cooldown_remaining(
            self.config.announcement_manual_trigger_cooldown_seconds,
            self.last_manual_trigger,
            now,
        )
    }

    /// Turns the next slot on, going round. Without slots nothing changes.
    pub fn advance_slot(&mut self)
        ensures
            final(self).index() == next_slot_index(old(self).index(), old(self).slots().len()),
            final(self).slots() == old(self).slots(),
            final(self).banners() == old(self).banners(),
            final(self).settings() == old(self).settings(),
            final(self).last_trigger() == old(self).last_trigger(),
    {
        proof {
            use_type_invariant(&*self);
        }
        if self.slots.len() == 0 {
            return ;
        }
        self.current_slot_index = (self.current_slot_index + 1) % self.slots.len();
    }

    /// Turns the next slot on by hand, at the clock reading `now`.
    ///
    /// Turned down without slots, and while the cooldown since the last manual
    /// trigger lasts; the manager is then left as it was.
    pub fn manual_advance_slot(&mut self, now: u64) -> (r: Result<(), ManualTriggerError>)
        ensures
            final(self).slots() == old(self).slots(),
            final(self).banners() == old(self).banners(),
            final(self).settings() == old(self).settings(),
            r == if old(self).slots().len() == 0 {
                Err::<(), ManualTriggerError>(ManualTriggerError::NoSlotsAvailable)
            } else {
                match cooldown_remaining(
                    old(self).settings().announcement_manual_trigger_cooldown_seconds,
                    old(self).last_trigger(),
                    now,
                ) {
                    Some(remaining) => Err(
                        ManualTriggerError::CooldownActive { remaining_seconds: remaining },
                    ),
                    None => Ok(()),
                }
            },
            r is Ok ==> final(self).last_trigger() == now && final(self).index() == next_slot_index(
                old(self).index(),
                old(self).slots().len(),
            ),
            r is Err ==> final(self).last_trigger() == old(self).last_trigger() && final(self).index() == old(self).index(),
    {
        if self.slots.len() == 0 {
            return Err(ManualTriggerError::NoSlotsAvailable);
        }
        match self.manual_cooldown_remaining_seconds(now) {
            Some(remaining) => {
                return Err(ManualTriggerError::CooldownActive { remaining_seconds: remaining });
            },
            None => {},
        }
        proof {
            use_type_invariant(&*self);
        }
        self.last_manual_trigger = now;
        self.advance_slot();
        Ok(())
    }

    /// The index of the first slot with the identifier `slot_id`.
    fn find_slot(&self, slot_id: &str) -> (r: Option<usize>)
        ensures
            match r {
                Some(i) => slot_position(self.slots(), slot_id@) == Some(i as int) && i
                    < self.slots().len(),
                None => slot_position(self.slots(), slot_id@) is None,
            },
    {
        let mut i: usize = 0;
        while i < self.slots.len()
            invariant
                i <= self.slots.len(),
                forall|k: int| 0 <= k < i ==> (#[trigger] self.slots@[k]).id@ != slot_id@,
            decreases self.slots.len() - i,
        {
            if str_equal(self.slots[i].id.as_str(), slot_id) {
                proof {
                    let found = slot_position(self.slots(), slot_id@)->0;
                    assert(self.slots@[i as int].id@ == slot_id@);
                    assert(found == i) by {
                        if found < i {
                            assert(self.slots@[found].id@ != slot_id@);
                        }
                    }
                }
                return Some(i);
            }
            i += 1;
        }
        None
    }

    /// Turns the slot with the identifier `slot_id` on by hand, at the clock
    /// reading `now`.
    ///
    /// Turned down without slots, for an identifier that no slot has, and
    /// while the cooldown since the last manual trigger lasts, in this order;
    /// the manager is then left as it was.
    pub fn manual_trigger_slot(&mut self, slot_id: &str, now: u64) -> (r: Result<
        (),
        ManualTriggerError,
    >)
        ensures
            final(self).slots() == old(self).slots(),
            final(self).banners() == old(self).banners(),
            final(self).settings() == old(self).settings(),
            match r {
                Ok(_) => {
                    &&& old(self).slots().len() > 0
                    &&& slot_position(old(self).slots(), slot_id@) == Some(
                        final(self).index() as int,
                    )
                    &&& cooldown_remaining(
                        old(self).settings().announcement_manual_trigger_cooldown_seconds,
                        old(self).last_trigger(),
                        now,
                    ) is None
                    &&& final(self).last_trigger() == now
                },
                Err(ManualTriggerError::NoSlotsAvailable) => old(self).slots().len() == 0,
                Err(ManualTriggerError::SlotNotFound(name)) => {
                    &&& old(self).slots().len() > 0
                    &&& slot_position(old(self).slots(), slot_id@) is None
                    &&& name@ == slot_id@
                },
                Err(ManualTriggerError::CooldownActive { remaining_seconds }) => {
                    &&& old(self).slots().len() > 0
                    &&& slot_position(old(self).slots(), slot_id@) is Some
                    &&& cooldown_remaining(
                        old(self).settings().announcement_manual_trigger_cooldown_seconds,
                        old(self).last_trigger(),
                        now,
                    ) == Some(remaining_seconds)
                },
            },
            r is Err ==> final(self).last_trigger() == old(self).last_trigger() && final(self).index() == old(self).index(),
    {
        if self.slots.len() == 0 {
            return Err(ManualTriggerError::NoSlotsAvailable);
        }
        let target_index = match self.find_slot(slot_id) {
            Some(i) => i,
            None => {
                return Err(ManualTriggerError::SlotNotFound(String::from_str(slot_id)));
            },
        };
        match self.manual_cooldown_remaining_seconds(now) {
            Some(remaining) => {
                return Err(ManualTriggerError::CooldownActive { remaining_seconds: remaining });
            },
            None => {},
        }
        proof {
            use_type_invariant(&*self);
        }
        self.last_manual_trigger = now;
        self.current_slot_index = target_index;
        Ok(())
    }

    /// What the displays are told of the announcements at the clock reading
    /// `now`.
    pub fn get_current_status(&self, now: u64) -> (status: AnnouncementStatus)
        ensures
            match status.current_slot_id {
                Some(id) => self.slots().len() > 0 && id@ == self.slots()[self.index() as int].id@,
                None => self.slots().len() == 0,
            },
            views(status.current_audio_playlist@) == if self.slots().len() > 0 {
                web_playlist(
                    views(self.slots()[self.index() as int].audio_files@),
                    self.settings().serve_dir_path@,
                )
            } else {
                Seq::<Seq<char>>::empty()
            },
            views(status.current_banner_playlist@) == web_playlist(
                views(self.banners()),
                self.settings().serve_dir_path@,
            ),
            status.banner_cycle_interval_seconds
                == self.settings().banner_rotation_interval_seconds,
            status.cooldown_seconds
                == self.settings().announcement_manual_trigger_cooldown_seconds,
            status.cooldown_active == cooldown_remaining(
                self.settings().announcement_manual_trigger_cooldown_seconds,
                self.last_trigger(),
                now,
            ) is Some,
            status.cooldown_remaining_seconds == match cooldown_remaining(
                self.settings().announcement_manual_trigger_cooldown_seconds,
                self.last_trigger(),
                now,
            ) {
                Some(remaining) => remaining,
                None => 0,
            },
            status.available_slots.len() == self.slots().len(),
            forall|i: int|
                0 <= i < self.slots().len() ==> (#[trigger] status.available_slots@[i]).id@
                    == self.slots()[i].id@ && views(status.available_slots@[i].audio_playlist@)
                    == web_playlist(
                    views(self.slots()[i].audio_files@),
                    self.settings().serve_dir_path@,
                ),
    {
        proof {
            use_type_invariant(self);
        }
        let serve_dir_path = self.config.serve_dir_path.as_str();
        let mut current_slot_id: Option<String> = None;
        let mut current_audio_playlist: Vec<String> = Vec::new();
        if self.slots.len() > 0 {
            let slot = &self.slots[self.current_slot_index];
            current_slot_id = Some(slot.id.clone());
            current_audio_playlist = web_playlist_of(&slot.audio_files, serve_dir_path);
        } else {
            assert(views(current_audio_playlist@) =~= Seq::<Seq<char>>::empty());
        }
        let current_banner_playlist = web_playlist_of(&self.banner_files, serve_dir_path);
        let cooldown_seconds = self.config.announcement_manual_trigger_cooldown_seconds;
        let cooldown_remaining = self.manual_cooldown_remaining_seconds(now);
        let mut available_slots: Vec<AnnouncementSlotSummary> = Vec::new();
        let mut i: usize = 0;
        while i < self.slots.len()
            invariant
                i <= self.slots.len(),
                available_slots.len() == i,
                serve_dir_path@ == self.config.serve_dir_path@,
                forall|k: int|
                    0 <= k < i ==> (#[trigger] available_slots@[k]).id@ == self.slots@[k].id@
                        && views(available_slots@[k].audio_playlist@) == web_playlist(
                        views(self.slots@[k].audio_files@),
                        self.config.serve_dir_path@,
                    ),
            decreases self.slots.len() - i,
        {
            let slot = &self.slots[i];
            available_slots.push(
                AnnouncementSlotSummary {
                    id: slot.id.clone(),
                    audio_playlist: web_playlist_of(&slot.audio_files, serve_dir_path),
                },
            );
            i += 1;
        }
        AnnouncementStatus {
            current_slot_id,
            current_audio_playlist,
            current_banner_playlist,
            banner_cycle_interval_seconds: self.config.banner_rotation_interval_seconds,
            cooldown_seconds,
            cooldown_remaining_seconds: match cooldown_remaining {
                Some(remaining) => remaining,
                None => 0,
            },
            cooldown_active: cooldown_remaining.is_some(),
            available_slots,
        }
    }
}

/// Whether the displays are told the status anew after a manual trigger with
/// the given result: after one that was accepted, and after one that was
/// turned down for the cooldown, so that they show the time that is left.
pub fn manual_trigger_is_broadcast(result: &Result<(), ManualTriggerError>) -> (r: bool)
    ensures
        r == (*result is Ok || *result matches Err(ManualTriggerError::CooldownActive { .. })),
{
    match result {
        Ok(_) => true,
        Err(ManualTriggerError::CooldownActive { .. }) => true,
        Err(_) => false,
    }
}

} // verus!
