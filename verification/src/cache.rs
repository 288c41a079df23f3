//! The on-disk cache of synthesized audio: how an entry is named, where it is
//! served, and which entries leave when the cache is full.
//!
//! A path is a string whose segments are separated by `/`. Nothing here
//! touches the disk: the caller probes, writes and deletes.

use vstd::prelude::*;
use vstd::seq_lib::{to_multiset_build, to_multiset_insert, lemma_multiset_commutative};
use crate::text::{
    is_alphanumeric, char_is_alphanumeric, chars_of, string_of_chars, concat, rows, split_on,
    non_empty, join_with, replaced, chars_equal, split_chars, drop_empty, join_chars, replace_char,
    lemma_split_on_whole, lemma_split_on_joined,
};

verus! {

/// Whether a character may stand in a file name as it is.
pub open spec fn is_kept(c: char) -> bool {
    is_alphanumeric(c) || c == '-' || c == '.'
}

/// A character made safe for a file name: kept where it is alphanumeric, a
/// hyphen or a dot, replaced by an underscore otherwise.
pub open spec fn sanitized_char(c: char) -> char {
    if is_kept(c) {
        c
    } else {
        '_'
    }
}

/// A text made safe for a file name, character by character.
pub open spec fn sanitized(s: Seq<char>) -> Seq<char> {
    s.map_values(|c: char| sanitized_char(c))
}

/// The file name of the audio for a call at a location.
pub open spec fn call_filename(call_id: Seq<char>, location: Seq<char>) -> Seq<char> {
    sanitized(call_id) + seq!['-'] + sanitized(location) + ".mp3"@
}

/// Whether a path starts at the root.
pub open spec fn is_absolute(p: Seq<char>) -> bool {
    p.len() > 0 && p[0] == '/'
}

/// `part` adjoined to `base`. An absolute `part` replaces `base`; otherwise the
/// two are put together with exactly one `/` between them, unless `base` is
/// empty or brings its own.
pub open spec fn joined_path(base: Seq<char>, part: Seq<char>) -> Seq<char> {
    if is_absolute(part) {
        part
    } else if base.len() == 0 || base.last() == '/' {
        base + part
    } else {
        base + seq!['/'] + part
    }
}

/// The cache path of the audio of one language for a call.
pub open spec fn language_cache_path(
    base: Seq<char>,
    lang: Seq<char>,
    call_id: Seq<char>,
    location: Seq<char>,
) -> Seq<char> {
    joined_path(joined_path(base, sanitized(lang)), call_filename(call_id, location))
}

/// The cache path of the audio that holds all languages for a call.
pub open spec fn multi_language_cache_path(
    base: Seq<char>,
    call_id: Seq<char>,
    location: Seq<char>,
) -> Seq<char> {
    joined_path(joined_path(base, "multi"@), call_filename(call_id, location))
}

/// Makes a text safe for use in a file name.
pub fn sanitize(s: &str) -> (r: String)
    ensures
        r@ == sanitized(s@),
{
    let chars = chars_of(s);
    let mut out: Vec<char> = Vec::new();
    let mut i: usize = 0;
    while i < chars.len()
        invariant
            i <= chars.len(),
            out@ == sanitized(chars@.take(i as int)),
        decreases chars.len() - i,
    {
        let c = chars[i];
        let kept = char_is_alphanumeric(c) || c == '-' || c == '.';
        out.push(if kept { c } else { '_' });
        assert(chars@.take(i + 1) == chars@.take(i as int).push(c));
        assert(sanitized(chars@.take(i as int).push(c)) =~= sanitized(chars@.take(i as int)).push(
            sanitized_char(c),
        ));
        i += 1;
    }
    assert(chars@.take(i as int) == chars@);
    string_of_chars(&out)
}

/// The file name under which the audio for a call is cached.
pub fn get_sanitized_call_filename(call_id: &str, call_location: &str) -> (r: String)
    ensures
        r@ == call_filename(call_id@, call_location@),
{
    let mut name = sanitize(call_id);
    name.append("-");
    name.append(sanitize(call_location).as_str());
    name.append(".mp3");
    proof {
        reveal_strlit("-");
        assert("-"@ =~= seq!['-']);
    }
    name
}

/// Adjoins `part` to `base`.
pub fn join_path(base: &str, part: &str) -> (r: String)
    ensures
        r@ == joined_path(base@, part@),
{
    let b = chars_of(base);
    let p = chars_of(part);
    if p.len() > 0 && p[0] == '/' {
        String::from_str(part)
    } else if b.len() == 0 || b[b.len() - 1] == '/' {
        concat(base, part)
    } else {
        let mut r = concat(base, "/");
        r.append(part);
        proof {
            reveal_strlit("/");
            assert("/"@ =~= seq!['/']);
        }
        r
    }
}

/// The cache path of the audio of one language for a call.
pub fn _get_cache_file_path(cache_base_path: &str, lang: &str, call_id: &str, call_location: &str) -> (r:
    String)
    ensures
        r@ == language_cache_path(cache_base_path@, lang@, call_id@, call_location@),
{
    let dir = join_path(cache_base_path, sanitize(lang).as_str());
    join_path(dir.as_str(), get_sanitized_call_filename(call_id, call_location).as_str())
}

/// The cache path of the audio that holds all languages for a call.
pub fn get_multi_language_cache_file_path(cache_base_path: &str, call_id: &str, call_location: &str) -> (r:
    String)
    ensures
        r@ == multi_language_cache_path(cache_base_path@, call_id@, call_location@),
{
    let dir = join_path(cache_base_path, "multi");
    join_path(dir.as_str(), get_sanitized_call_filename(call_id, call_location).as_str())
}

/// The pieces of a path: what stands between its slashes, empty pieces left
/// out.
pub open spec fn path_pieces(p: Seq<char>) -> Seq<Seq<char>> {
    non_empty(split_on(p, '/'))
}

/// Whether a piece of a path is the single dot that stands for "this
/// directory".
pub open spec fn is_dot(piece: Seq<char>) -> bool {
    piece == seq!['.']
}

/// The pieces that are no single dots.
pub open spec fn without_dots(pieces: Seq<Seq<char>>) -> Seq<Seq<char>> {
    pieces.filter(|piece: Seq<char>| !is_dot(piece))
}

/// The segments of a path: its pieces, without the single dots, which lead
/// nowhere. Only a dot that is the first piece of a relative path counts as a
/// segment.
pub open spec fn path_segments(p: Seq<char>) -> Seq<Seq<char>> {
    let pieces = path_pieces(p);
    if !is_absolute(p) && pieces.len() > 0 && is_dot(pieces[0]) {
        seq![pieces[0]] + without_dots(pieces.skip(1))
    } else {
        without_dots(pieces)
    }
}

/// What is left of `path` below `base`, in normal form: the segments that
/// follow those of `base`, joined by single slashes. `None` where `path` does
/// not lie below `base`. An empty `base` is above every path, and what is
/// left of an absolute path below it starts at the root like the path itself.
/// Otherwise both start at the root or neither does, and the segments of
/// `base` are the first segments of `path`.
pub open spec fn stripped_prefix(path: Seq<char>, base: Seq<char>) -> Option<Seq<char>> {
    let p = path_segments(path);
    let b = path_segments(base);
    if (base.len() == 0 || is_absolute(path) == is_absolute(base)) && b.is_prefix_of(p) {
        let rest = join_with(p.skip(b.len() as int), '/');
        if base.len() == 0 && is_absolute(path) {
            Some(seq!['/'] + rest)
        } else {
            Some(rest)
        }
    } else {
        None
    }
}

/// The URL path made of the given segments: a leading `/`, then the segments
/// with one `/` between each two.
pub open spec fn url_of_segments(segments: Seq<Seq<char>>) -> Seq<char> {
    seq!['/'] + join_with(segments, '/')
}

/// The URL at which the file at `relative`, a path below the cache root, is
/// served under the mount point `web_segment`. Backslashes in `relative`
/// count as slashes, and no empty segment is left in the URL.
pub open spec fn web_url(relative: Seq<char>, web_segment: Seq<char>) -> Seq<char> {
    url_of_segments(
        path_pieces(web_segment) + path_pieces(replaced(relative, '\\', '/')),
    )
}

/// The URL at which the cache file at `path` is served, where the cache root
/// `base` is mounted at `web_segment`; `None` where `path` is not below `base`.
pub open spec fn web_accessible_url(
    path: Seq<char>,
    base: Seq<char>,
    web_segment: Seq<char>,
) -> Option<Seq<char>> {
    match stripped_prefix(path, base) {
        Some(relative) => Some(web_url(relative, web_segment)),
        None => None,
    }
}

/// The pieces of a path.
pub fn pieces_of(path: &Vec<char>) -> (pieces: Vec<Vec<char>>)
    ensures
        rows(pieces@) == path_pieces(path@),
{
    drop_empty(split_chars(path, '/'))
}

/// Whether a piece of a path is a single dot.
fn piece_is_dot(piece: &Vec<char>) -> (r: bool)
    ensures
        r == is_dot(piece@),
{
    let r = piece.len() == 1 && piece[0] == '.';
    assert(r ==> piece@ =~= seq!['.']);
    r
}

/// The segments of a path.
pub fn segments_of(path: &Vec<char>) -> (segments: Vec<Vec<char>>)
    ensures
        rows(segments@) == path_segments(path@),
{
    let pieces = pieces_of(path);
    let absolute = path.len() > 0 && path[0] == '/';
    let mut segments: Vec<Vec<char>> = Vec::new();
    let ghost all = rows(pieces@);
    let ghost keep = |piece: Seq<char>| !is_dot(piece);
    let mut start: usize = 0;
    assert(rows(pieces@)[0] == pieces@[0]@ || pieces.len() == 0);
    if !absolute && pieces.len() > 0 && piece_is_dot(&pieces[0]) {
        segments.push(pieces[0].clone());
        start = 1;
    }
    let ghost head = rows(segments@);
    let mut i: usize = start;
    proof {
        reveal(Seq::filter);
        assert(all.subrange(start as int, start as int) =~= Seq::<Seq<char>>::empty());
        assert(head + all.subrange(start as int, start as int).filter(keep) =~= head);
    }
    while i < pieces.len()
        invariant
            start <= i <= pieces.len(),
            all == rows(pieces@),
            keep == |piece: Seq<char>| !is_dot(piece),
            rows(segments@) == head + all.subrange(start as int, i as int).filter(keep),
        decreases pieces.len() - i,
    {
        let ghost before = rows(segments@);
        proof {
            reveal(Seq::filter);
            let next = all.subrange(start as int, i + 1);
            assert(next.drop_last() =~= all.subrange(start as int, i as int));
            assert(next.last() == pieces@[i as int]@);
        }
        if !piece_is_dot(&pieces[i]) {
            segments.push(pieces[i].clone());
            assert(rows(segments@) =~= before.push(pieces@[i as int]@));
        }
        i += 1;
    }
    proof {
        assert(all.subrange(start as int, all.len() as int) =~= all.skip(start as int));
        assert(all.skip(0) =~= all);
        if start == 1 {
            assert(head =~= seq![all[0]]);
        } else {
            assert(head =~= Seq::<Seq<char>>::empty());
            assert(head + all.filter(keep) =~= all.filter(keep));
        }
    }
    segments
}

/// Whether the segments `b` are the first segments of `p`.
fn segments_start_with(p: &Vec<Vec<char>>, b: &Vec<Vec<char>>) -> (r: bool)
    ensures
        r == rows(b@).is_prefix_of(rows(p@)),
{
    if b.len() > p.len() {
        return false;
    }
    let mut i: usize = 0;
    while i < b.len()
        invariant
            i <= b.len() <= p.len(),
            forall|k: int| 0 <= k < i ==> rows(b@)[k] == rows(p@)[k],
        decreases b.len() - i,
    {
        if !chars_equal(&b[i], &p[i]) {
            assert(rows(b@)[i as int] != rows(p@)[i as int]);
            return false;
        }
        i += 1;
    }
    assert(rows(p@).subrange(0, rows(b@).len() as int) =~= rows(b@));
    true
}

/// What is left of `path` below `base`.
pub fn strip_base(path: &str, base: &str) -> (r: Option<String>)
    ensures
        match r {
            Some(relative) => stripped_prefix(path@, base@) == Some(relative@),
            None => stripped_prefix(path@, base@) is None,
        },
{
    let pc = chars_of(path);
    let bc = chars_of(base);
    let p = segments_of(&pc);
    let b = segments_of(&bc);
    let path_absolute = pc.len() > 0 && pc[0] == '/';
    let base_absolute = bc.len() > 0 && bc[0] == '/';
    if (bc.len() == 0 || path_absolute == base_absolute) && segments_start_with(&p, &b) {
        let mut rest: Vec<Vec<char>> = Vec::new();
        let mut i: usize = b.len();
        while i < p.len()
            invariant
                b.len() <= i <= p.len(),
                rows(rest@) == rows(p@).subrange(b.len() as int, i as int),
            decreases p.len() - i,
        {
            let ghost done = rows(rest@);
            rest.push(p[i].clone());
            assert(rows(rest@) =~= done.push(p@[i as int]@));
            assert(rows(p@).subrange(b.len() as int, i + 1) =~= rows(p@).subrange(
                b.len() as int,
                i as int,
            ).push(rows(p@)[i as int]));
            i += 1;
        }
        assert(rows(p@).subrange(b.len() as int, p.len() as int) =~= rows(p@).skip(b.len() as int));
        let joined = join_chars(&rest, '/');
        if bc.len() == 0 && path_absolute {
            let mut rooted = String::from_str("/");
            rooted.append(string_of_chars(&joined).as_str());
            proof {
                reveal_strlit("/");
                assert("/"@ =~= seq!['/']);
            }
            Some(rooted)
        } else {
            Some(string_of_chars(&joined))
        }
    } else {
        None
    }
}

/// The URL at which the file at `relative`, below the cache root, is served
/// under the mount point `web_segment`.
pub fn web_url_for(relative: &str, web_segment: &str) -> (r: String)
    ensures
        r@ == web_url(relative@, web_segment@),
{
    let mut segments = pieces_of(&chars_of(web_segment));
    let slashed = replace_char(&chars_of(relative), '\\', '/');
    let mut tail = pieces_of(&slashed);
    let ghost front = rows(segments@);
    let ghost back = rows(tail@);
    segments.append(&mut tail);
    assert(rows(segments@) =~= front + back);
    let joined = join_chars(&segments, '/');
    let mut url: Vec<char> = Vec::new();
    url.push('/');
    let mut i: usize = 0;
    while i < joined.len()
        invariant
            i <= joined.len(),
            url@ == seq!['/'] + joined@.take(i as int),
        decreases joined.len() - i,
    {
        url.push(joined[i]);
        assert(joined@.take(i + 1) == joined@.take(i as int).push(joined@[i as int]));
        assert(seq!['/'] + joined@.take(i as int).push(joined@[i as int]) =~= (seq!['/']
            + joined@.take(i as int)).push(joined@[i as int]));
        i += 1;
    }
    assert(joined@.take(i as int) == joined@);
    string_of_chars(&url)
}

/// The URL at which a cache file is served.
///
/// `cache_file_path` is the file, `cache_base_fs_path` the root of the cache
/// on disk and `cache_web_path_segment` the place where that root is mounted
/// on the web server. The serving directory plays no part in the answer.
pub fn get_web_accessible_audio_url(
    cache_file_path: &str,
    _serve_dir_path: &str,
    cache_base_fs_path: &str,
    cache_web_path_segment: &str,
) -> (r: Option<String>)
    ensures
        match r {
            Some(url) => web_accessible_url(
                cache_file_path@,
                cache_base_fs_path@,
                cache_web_path_segment@,
            ) == Some(url@),
            None => web_accessible_url(
                cache_file_path@,
                cache_base_fs_path@,
                cache_web_path_segment@,
            ) is None,
        },
{
    match strip_base(cache_file_path, cache_base_fs_path) {
        Some(relative) => Some(web_url_for(relative.as_str(), cache_web_path_segment)),
        None => None,
    }
}

/// One file of the cache, as the pruning reads it.
#[derive(Debug, Clone, PartialEq, Eq)]
pub struct CacheFile {
    /// When the file was last modified: a count of time units since a fixed
    /// instant, the same unit and instant for all files of one listing.
    pub modified: u64,
    /// The path of the file.
    pub path: String,
}

/// What pruning decides: the files to delete, oldest first, and those to keep.
#[derive(Debug, Clone, PartialEq, Eq)]
pub struct PrunePlan {
    pub to_delete: Vec<CacheFile>,
    pub retained: Vec<CacheFile>,
}

/// The files are in order of modification time, oldest first.
pub open spec fn oldest_first(files: Seq<CacheFile>) -> bool {
    forall|i: int, j: int| 0 <= i < j < files.len() ==> files[i].modified <= files[j].modified
}

/// No file of `newer` was modified before any file of `older`.
pub open spec fn none_older(newer: Seq<CacheFile>, older: Seq<CacheFile>) -> bool {
    forall|i: int, j: int|
        0 <= i < older.len() && 0 <= j < newer.len() ==> older[i].modified <= newer[j].modified
}

/// How many files leave a cache of `count` files under a ceiling of
/// `max_files`: none where the ceiling is zero (pruning is off) or not
/// exceeded, else the excess.
pub open spec fn excess(count: nat, max_files: nat) -> nat {
    if max_files == 0 || count <= max_files {
        0
    } else {
        (count - max_files) as nat
    }
}

/// `to_delete` and `retained` are a pruning of `files` under a ceiling of
/// `max_files`: every file is in exactly one of the two, the excess over the
/// ceiling is deleted, oldest first, and no file that is deleted was modified
/// after one that is retained. Where nothing is deleted, the files stay in
/// the order in which they were listed.
pub open spec fn is_pruning(
    files: Seq<CacheFile>,
    max_files: nat,
    to_delete: Seq<CacheFile>,
    retained: Seq<CacheFile>,
) -> bool {
    &&& to_delete.to_multiset().add(retained.to_multiset()) == files.to_multiset()
    &&& to_delete.len() == excess(files.len(), max_files)
    &&& to_delete.len() + retained.len() == files.len()
    &&& oldest_first(to_delete)
    &&& none_older(retained, to_delete)
    &&& excess(files.len(), max_files) == 0 ==> retained == files
}

/// The files in order of modification time, oldest first. Files of equal time
/// keep the order they came in.
fn sort_oldest_first(files: Vec<CacheFile>) -> (sorted: Vec<CacheFile>)
    ensures
        sorted@.to_multiset() == files@.to_multiset(),
        sorted.len() == files.len(),
        oldest_first(sorted@),
{
    let mut rest = files;
    let mut sorted: Vec<CacheFile> = Vec::new();
    let ghost all = rest@;
    proof {
        assert(sorted@ + rest@ =~= all);
    }
    while rest.len() > 0
        invariant
            (sorted@ + rest@).to_multiset() == all.to_multiset(),
            sorted.len() + rest.len() == all.len(),
            oldest_first(sorted@),
        decreases rest.len(),
    {
        let ghost before_rest = rest@;
        let ghost before_sorted = sorted@;
        let file = rest.pop().unwrap();
        let mut at: usize = 0;
        while at < sorted.len() && sorted[at].modified < file.modified
            invariant
                at <= sorted.len(),
                forall|k: int| 0 <= k < at ==> sorted@[k].modified < file.modified,
            decreases sorted.len() - at,
        {
            at += 1;
        }
        sorted.insert(at, file);
        proof {
            assert(before_rest =~= rest@.push(file));
            lemma_multiset_commutative(before_sorted, before_rest);
            lemma_multiset_commutative(sorted@, rest@);
            to_multiset_build(rest@, file);
            to_multiset_insert(before_sorted, at as int, file);
            assert((sorted@ + rest@).to_multiset() =~= (before_sorted + before_rest).to_multiset());
            assert forall|i: int, j: int| 0 <= i < j < sorted@.len() implies sorted@[i].modified
                <= sorted@[j].modified by {
                if i < at && j > at {
                    assert(sorted@[i] == before_sorted[i]);
                    assert(sorted@[j] == before_sorted[j - 1]);
                } else if i > at {
                    assert(sorted@[i] == before_sorted[i - 1]);
                    assert(sorted@[j] == before_sorted[j - 1]);
                } else if j < at {
                    assert(sorted@[i] == before_sorted[i]);
                    assert(sorted@[j] == before_sorted[j]);
                } else if i == at {
                    assert(sorted@[j] == before_sorted[j - 1]);
                }
            }
        }
    }
    proof {
        assert(sorted@ + rest@ =~= sorted@);
    }
    sorted
}

/// Decides which files leave a cache that may hold `max_files` files.
///
/// With `max_files` zero, or no more files than that, nothing leaves.
/// Otherwise exactly `max_files` files stay, and no file that stays is older
/// than one that leaves. The plan holds every listed file once, either as
/// deleted or as retained. Which of two files of equal age leaves first is not
/// promised.
pub fn prune_cache(files: Vec<CacheFile>, max_files: usize) -> (plan: PrunePlan)
    ensures
        is_pruning(files@, max_files as nat, plan.to_delete@, plan.retained@),
{
    if max_files == 0 || files.len() <= max_files {
        let plan = PrunePlan { to_delete: Vec::new(), retained: files };
        proof {
            assert(plan.to_delete@ + plan.retained@ =~= files@);
            lemma_multiset_commutative(plan.to_delete@, plan.retained@);
        }
        return plan;
    }
    let num_to_remove: usize = files.len() - max_files;
    let mut sorted = sort_oldest_first(files);
    let ghost whole = sorted@;
    let retained = sorted.split_off(num_to_remove);
    proof {
        assert(sorted@ + retained@ =~= whole);
        lemma_multiset_commutative(sorted@, retained@);
    }
    PrunePlan { to_delete: sorted, retained }
}

/// The law of pruning: from a cache that holds more files than its ceiling
/// allows, exactly as many files are retained as the ceiling says, and every
/// file that is retained was modified no earlier than any file that is
/// deleted. A ceiling of zero turns pruning off.
pub proof fn law_pruning_keeps_the_newest(
    files: Seq<CacheFile>,
    max_files: nat,
    to_delete: Seq<CacheFile>,
    retained: Seq<CacheFile>,
)
    requires
        is_pruning(files, max_files, to_delete, retained),
    ensures
        max_files > 0 && files.len() > max_files ==> retained.len() == max_files,
        max_files == 0 ==> to_delete.len() == 0 && retained == files,
        forall|i: int, j: int|
            0 <= i < retained.len() && 0 <= j < to_delete.len() ==> retained[i].modified
                >= to_delete[j].modified,
{
}

/// A sanitized text holds neither a slash nor a backslash.
pub proof fn lemma_sanitized_has_no_slash(s: Seq<char>)
    ensures
        forall|i: int|
            0 <= i < sanitized(s).len() ==> (#[trigger] sanitized(s)[i]) != '/' && sanitized(s)[i]
                != '\\',
{
}

/// Sanitizing leaves a safe text alone: a text of which every character may
/// stand in a file name, such as one of ASCII letters, digits, hyphens and
/// dots, comes out as it went in.
pub proof fn law_sanitize_keeps_safe_text(s: Seq<char>)
    requires
        forall|i: int| 0 <= i < s.len() ==> is_kept(#[trigger] s[i]),
    ensures
        sanitized(s) == s,
{
    assert(sanitized(s) =~= s);
}

/// The file name of a call is one piece of a path: it is not empty, holds
/// neither a slash nor a backslash, and is no single dot.
pub proof fn lemma_call_filename_is_a_piece(call_id: Seq<char>, location: Seq<char>)
    ensures
        is_plain_piece(call_filename(call_id, location)),
        path_pieces(call_filename(call_id, location)) == seq![call_filename(call_id, location)],
        !is_dot(call_filename(call_id, location)),
        !is_absolute(call_filename(call_id, location)),
        replaced(call_filename(call_id, location), '\\', '/') == call_filename(
            call_id,
            location,
        ),
{
    let name = call_filename(call_id, location);
    reveal_strlit(".mp3");
    lemma_sanitized_has_no_slash(call_id);
    lemma_sanitized_has_no_slash(location);
    assert(name.len() >= 5);
    assert forall|i: int| 0 <= i < name.len() implies (#[trigger] name[i]) != '/' && name[i]
        != '\\' by {
        let a = sanitized(call_id);
        let b = sanitized(location);
        if i < a.len() {
            assert(name[i] == a[i]);
        } else if i == a.len() {
            assert(name[i] == '-');
        } else if i < a.len() + 1 + b.len() {
            assert(name[i] == b[i - a.len() - 1]);
        } else {
            assert(name[i] == ".mp3"@[i - a.len() - 1 - b.len()]);
        }
    }
    lemma_split_on_whole(name, '/');
    lemma_single_piece(name);
    assert(replaced(name, '\\', '/') =~= name);
}

/// A text without a slash that is not empty is the one piece of itself.
pub proof fn lemma_single_piece(s: Seq<char>)
    requires
        s.len() > 0,
        split_on(s, '/') == seq![s],
    ensures
        path_pieces(s) == seq![s],
{
    reveal(Seq::filter);
    let keep = |p: Seq<char>| p.len() > 0;
    assert(seq![s].drop_last() =~= Seq::<Seq<char>>::empty());
    assert(seq![s].filter(keep) =~= seq![s]);
}

/// The empty path has no pieces.
pub proof fn lemma_no_pieces_of_nothing()
    ensures
        path_pieces(Seq::<char>::empty()) == Seq::<Seq<char>>::empty(),
{
    reveal(Seq::filter);
    let keep = |p: Seq<char>| p.len() > 0;
    let one = seq![Seq::<char>::empty()];
    let none = Seq::<Seq<char>>::empty();
    assert(none.filter(keep) =~= none);
    assert(one.drop_last() =~= none);
    assert(!keep(one.last()));
    assert(one.filter(keep) =~= none);
    assert(split_on(Seq::<char>::empty(), '/') =~= one);
}

/// The pieces of a path that was joined from two are the pieces of the first,
/// then the pieces of the second, as long as the second is relative.
pub proof fn lemma_pieces_of_joined_path(base: Seq<char>, part: Seq<char>)
    requires
        !is_absolute(part),
    ensures
        path_pieces(joined_path(base, part)) == path_pieces(base) + path_pieces(part),
        base.len() > 0 ==> is_absolute(joined_path(base, part)) == is_absolute(base),
        base.len() == 0 ==> joined_path(base, part) == part,
{
    let keep = |p: Seq<char>| p.len() > 0;
    let nothing = Seq::<char>::empty();
    lemma_no_pieces_of_nothing();
    if base.len() == 0 {
        assert(base + part =~= part);
        assert(base =~= nothing);
        assert(path_pieces(base) + path_pieces(part) =~= path_pieces(part));
    } else if base.last() == '/' {
        let front = base.drop_last();
        assert(base =~= front + seq!['/'] + nothing);
        assert(base + part =~= front + seq!['/'] + part);
        lemma_split_on_joined(front, nothing, '/');
        lemma_split_on_joined(front, part, '/');
        Seq::filter_distributes_over_add(split_on(front, '/'), split_on(nothing, '/'), keep);
        Seq::filter_distributes_over_add(split_on(front, '/'), split_on(part, '/'), keep);
        assert(path_pieces(base) =~= path_pieces(front));
        assert((base + part)[0] == base[0]);
    } else {
        lemma_split_on_joined(base, part, '/');
        Seq::filter_distributes_over_add(split_on(base, '/'), split_on(part, '/'), keep);
        assert((base + seq!['/'] + part)[0] == base[0]);
    }
}

/// The segments of a path that was joined from two are the segments of the
/// first, then the pieces of the second, as long as the second is relative
/// and none of its pieces is a single dot.
pub proof fn lemma_segments_of_joined_path(base: Seq<char>, part: Seq<char>)
    requires
        !is_absolute(part),
        forall|i: int| 0 <= i < path_pieces(part).len() ==> !is_dot(#[trigger] path_pieces(part)[i]),
    ensures
        path_segments(joined_path(base, part)) == path_segments(base) + path_pieces(part),
{
    let joined = joined_path(base, part);
    let front = path_pieces(base);
    let back = path_pieces(part);
    let keep = |piece: Seq<char>| !is_dot(piece);
    lemma_pieces_of_joined_path(base, part);
    lemma_no_pieces_of_nothing();
    assert(back.filter(keep) == back) by {
        lemma_filter_keeps_all(back, keep);
    }
    if front.len() == 0 {
        assert(front + back =~= back);
        assert(front.filter(keep) =~= Seq::<Seq<char>>::empty()) by {
            reveal(Seq::filter);
        }
        if back.len() > 0 {
            assert(!is_dot(back[0]));
        }
        assert(path_segments(base) + back =~= back);
    } else {
        assert(base.len() > 0) by {
            if base.len() == 0 {
                assert(base =~= Seq::<char>::empty());
            }
        }
        assert((front + back)[0] == front[0]);
        if !is_absolute(base) && is_dot(front[0]) {
            assert((front + back).skip(1) =~= front.skip(1) + back);
            Seq::filter_distributes_over_add(front.skip(1), back, keep);
            assert(seq![front[0]] + (front.skip(1).filter(keep) + back) =~= (seq![front[0]]
                + front.skip(1).filter(keep)) + back);
        } else {
            Seq::filter_distributes_over_add(front, back, keep);
        }
    }
}

/// A filter that every element passes changes nothing.
proof fn lemma_filter_keeps_all(s: Seq<Seq<char>>, keep: spec_fn(Seq<char>) -> bool)
    requires
        forall|i: int| 0 <= i < s.len() ==> keep(#[trigger] s[i]),
    ensures
        s.filter(keep) == s,
    decreases s.len(),
{
    reveal(Seq::filter);
    if s.len() > 0 {
        let t = s.drop_last();
        assert forall|i: int| 0 <= i < t.len() implies keep(#[trigger] t[i]) by {
            assert(t[i] == s[i]);
        }
        lemma_filter_keeps_all(t, keep);
        assert(t.push(s.last()) =~= s);
    }
}

/// A piece of a path that reads as itself: it is not empty and holds neither
/// a slash nor a backslash.
pub open spec fn is_plain_piece(piece: Seq<char>) -> bool {
    &&& piece.len() > 0
    &&& forall|i: int| 0 <= i < piece.len() ==> (#[trigger] piece[i]) != '/' && piece[i] != '\\'
}

/// Plain pieces that are joined by slashes read back as themselves.
pub proof fn lemma_pieces_of_joined_pieces(pieces: Seq<Seq<char>>)
    requires
        forall|i: int| 0 <= i < pieces.len() ==> is_plain_piece(#[trigger] pieces[i]),
    ensures
        path_pieces(join_with(pieces, '/')) == pieces,
    decreases pieces.len(),
{
    let text = join_with(pieces, '/');
    if pieces.len() == 0 {
        lemma_no_pieces_of_nothing();
    } else if pieces.len() == 1 {
        lemma_plain_piece_is_a_piece(pieces[0]);
        assert(seq![pieces[0]] =~= pieces);
    } else {
        let front = pieces.drop_last();
        let last = pieces.last();
        assert forall|i: int| 0 <= i < front.len() implies is_plain_piece(#[trigger] front[i]) by {
            assert(front[i] == pieces[i]);
        }
        lemma_pieces_of_joined_pieces(front);
        lemma_plain_piece_is_a_piece(last);
        let head = join_with(front, '/');
        assert(text =~= head + seq!['/'] + last);
        lemma_pieces_of_joined_text(head, last);
        assert(front + seq![last] =~= pieces);
    }
}

/// A plain piece is the one piece of itself.
proof fn lemma_plain_piece_is_a_piece(piece: Seq<char>)
    requires
        is_plain_piece(piece),
    ensures
        path_pieces(piece) == seq![piece],
{
    lemma_split_on_whole(piece, '/');
    lemma_single_piece(piece);
}

/// The pieces of two texts with a slash between them are the pieces of the
/// first, then the pieces of the second.
proof fn lemma_pieces_of_joined_text(a: Seq<char>, b: Seq<char>)
    ensures
        path_pieces(a + seq!['/'] + b) == path_pieces(a) + path_pieces(b),
{
    let keep = |p: Seq<char>| p.len() > 0;
    lemma_split_on_joined(a, b, '/');
    Seq::filter_distributes_over_add(split_on(a, '/'), split_on(b, '/'), keep);
}

/// A text that is made by joining plain pieces holds no backslash, and it
/// starts with the first character of the first piece.
pub proof fn lemma_joined_pieces_are_plain(pieces: Seq<Seq<char>>)
    requires
        forall|i: int| 0 <= i < pieces.len() ==> is_plain_piece(#[trigger] pieces[i]),
    ensures
        replaced(join_with(pieces, '/'), '\\', '/') == join_with(pieces, '/'),
        !is_absolute(join_with(pieces, '/')),
        pieces.len() > 0 ==> join_with(pieces, '/').len() > 0,
    decreases pieces.len(),
{
    let text = join_with(pieces, '/');
    if pieces.len() == 0 {
        assert(replaced(text, '\\', '/') =~= text);
    } else if pieces.len() == 1 {
        assert(is_plain_piece(pieces[0]));
        assert(text[0] == pieces[0][0]);
        assert(replaced(text, '\\', '/') =~= text);
    } else {
        let front = pieces.drop_last();
        let last = pieces.last();
        assert forall|i: int| 0 <= i < front.len() implies is_plain_piece(#[trigger] front[i]) by {
            assert(front[i] == pieces[i]);
        }
        lemma_joined_pieces_are_plain(front);
        assert(is_plain_piece(last));
        let head = join_with(front, '/');
        assert(text =~= head + seq!['/'] + last);
        assert(text[0] == head[0]);
        lemma_no_backslash_joined(head, last);
    }
}

/// Two texts without a backslash, with a slash between them, make a text
/// without a backslash.
proof fn lemma_no_backslash_joined(a: Seq<char>, b: Seq<char>)
    requires
        replaced(a, '\\', '/') == a,
        forall|i: int| 0 <= i < b.len() ==> (#[trigger] b[i]) != '\\',
    ensures
        replaced(a + seq!['/'] + b, '\\', '/') == a + seq!['/'] + b,
{
    let text = a + seq!['/'] + b;
    assert forall|i: int| 0 <= i < text.len() implies (#[trigger] text[i]) != '\\' by {
        if i < a.len() {
            assert(text[i] == a[i]);
            assert(replaced(a, '\\', '/')[i] == a[i]);
        } else if i > a.len() {
            assert(text[i] == b[i - a.len() - 1]);
        }
    }
    assert(replaced(text, '\\', '/') =~= text);
}

/// What is left below `base` of a path that was made by joining plain pieces
/// onto `base`, one after the other or several at once: those pieces, joined
/// by slashes.
pub proof fn lemma_stripped_prefix_of_joined(base: Seq<char>, path: Seq<char>, pieces: Seq<Seq<char>>)
    requires
        path_segments(path) == path_segments(base) + pieces,
        base.len() > 0 ==> is_absolute(path) == is_absolute(base),
        base.len() == 0 ==> !is_absolute(path),
    ensures
        stripped_prefix(path, base) == Some(join_with(pieces, '/')),
{
    let b = path_segments(base);
    let p = path_segments(path);
    assert(p.skip(b.len() as int) =~= pieces);
    assert(p.subrange(0, b.len() as int) =~= b);
    assert(b.is_prefix_of(p));
}

/// The file whose path is made by joining a directory of plain pieces onto
/// `base`, and a plain name onto that, lies below `base`, and what is left of
/// its path below `base` are those pieces and the name, joined by slashes.
pub proof fn lemma_stripped_prefix_of_file(
    base: Seq<char>,
    pieces: Seq<Seq<char>>,
    name: Seq<char>,
)
    requires
        pieces.len() > 0,
        forall|i: int|
            0 <= i < pieces.len() ==> is_plain_piece(#[trigger] pieces[i]) && !is_dot(pieces[i]),
        is_plain_piece(name),
        !is_dot(name),
    ensures
        stripped_prefix(
            joined_path(joined_path(base, join_with(pieces, '/')), name),
            base,
        ) == Some(join_with(pieces.push(name), '/')),
{
    let dir = join_with(pieces, '/');
    let below = joined_path(base, dir);
    let path = joined_path(below, name);
    lemma_pieces_of_joined_pieces(pieces);
    lemma_joined_pieces_are_plain(pieces);
    lemma_plain_piece_is_a_piece(name);
    assert(!is_absolute(name));
    lemma_segments_of_joined_path(base, dir);
    lemma_pieces_of_joined_path(base, dir);
    assert(path_segments(below) == path_segments(base) + pieces);
    assert(below.len() > 0);
    lemma_segments_of_joined_path(below, name);
    lemma_pieces_of_joined_path(below, name);
    assert((path_segments(base) + pieces) + seq![name] =~= path_segments(base) + pieces.push(name));
    lemma_stripped_prefix_of_joined(base, path, pieces.push(name));
}

/// The URL of a file whose path below the root is made of plain pieces: the
/// pieces of the mount point, then those pieces.
pub proof fn lemma_web_url_of_plain_pieces(pieces: Seq<Seq<char>>, web_segment: Seq<char>)
    requires
        forall|i: int| 0 <= i < pieces.len() ==> is_plain_piece(#[trigger] pieces[i]),
    ensures
        web_url(join_with(pieces, '/'), web_segment) == url_of_segments(
            path_pieces(web_segment) + pieces,
        ),
{
    lemma_pieces_of_joined_pieces(pieces);
    lemma_joined_pieces_are_plain(pieces);
}

/// The place of a call's audio below the root of the cache: the directory
/// `multi`, then the file name of the call.
pub open spec fn multi_language_cache_key(call_id: Seq<char>, location: Seq<char>) -> Seq<char> {
    "multi"@ + seq!['/'] + call_filename(call_id, location)
}

/// The cache file of a call always lies below the root of the cache, whatever
/// the root, the call and the location are, and what is left of its path
/// below the root is `multi`, a slash, and the file name of the call. So the
/// file always has a URL: the mount point of the cache, then `multi`, then
/// the file name.
pub proof fn law_cache_file_has_a_url(
    base: Seq<char>,
    call_id: Seq<char>,
    location: Seq<char>,
    web_segment: Seq<char>,
)
    ensures
        stripped_prefix(multi_language_cache_path(base, call_id, location), base) == Some(
            multi_language_cache_key(call_id, location),
        ),
        web_accessible_url(multi_language_cache_path(base, call_id, location), base, web_segment)
            == Some(
            url_of_segments(
                path_pieces(web_segment) + seq!["multi"@, call_filename(call_id, location)],
            ),
        ),
{
    let name = call_filename(call_id, location);
    let multi = "multi"@;
    let one = seq![multi];
    let two = seq![multi, name];
    reveal_strlit("multi");
    lemma_call_filename_is_a_piece(call_id, location);
    assert(is_plain_piece(multi) && !is_dot(multi));
    assert(join_with(one, '/') == multi);
    assert(one.push(name) =~= two);
    assert(two.drop_last() =~= one);
    assert(join_with(two, '/') =~= multi_language_cache_key(call_id, location));
    lemma_stripped_prefix_of_file(base, one, name);
    lemma_web_url_of_plain_pieces(two, web_segment);
}

/// Sanitizing is idempotent: a text that was sanitized once is left as it is
/// by a second pass.
pub proof fn law_sanitize_idempotent(s: Seq<char>)
    ensures
        sanitized(sanitized(s)) == sanitized(s),
{
    assert(sanitized(sanitized(s)) =~= sanitized(s));
}

/// The cache path is a function of the key alone: two derivations from equal
/// base, call id and location give equal paths.
pub proof fn law_cache_path_deterministic(
    base1: Seq<char>,
    id1: Seq<char>,
    loc1: Seq<char>,
    base2: Seq<char>,
    id2: Seq<char>,
    loc2: Seq<char>,
)
    requires
        base1 == base2,
        id1 == id2,
        loc1 == loc2,
    ensures
        multi_language_cache_path(base1, id1, loc1) == multi_language_cache_path(base2, id2, loc2),
        call_filename(id1, loc1) == call_filename(id2, loc2),
{
}

} // verus!
