//! Cutting an announcement into chunks that the synthesis endpoint accepts.
//!
//! A chunk holds at most a given number of characters, and a cut is made only
//! next to a separator (white space or punctuation), never inside a word. A
//! word that is longer than the budget cannot be cut and makes the whole
//! segmentation fail.

use vstd::prelude::*;
use crate::text::{chars_of, concat, string_of_range, is_white_space};

verus! {

/// White space as a pattern's `\s` reads it: the characters with the Unicode
/// property `White_Space`.
pub open spec fn is_pattern_space(c: char) -> bool {
    is_white_space(c)
}

/// The ASCII punctuation at which a text may be cut: every ASCII punctuation
/// character but the two square brackets.
pub open spec fn is_cut_punctuation(c: char) -> bool {
    let u = c as u32;
    (0x21 <= u && u <= 0x2F) || (0x3A <= u && u <= 0x40) || u == 0x5C || u == 0x5E || u == 0x5F
        || u == 0x60 || (0x7B <= u && u <= 0x7E)
}

/// A character next to which a text may be cut: white space, the byte-order
/// mark, or punctuation.
pub open spec fn is_separator(c: char) -> bool {
    is_pattern_space(c) || c as u32 == 0xFEFF || is_cut_punctuation(c)
}

/// The greatest index in `lo..=hi` at which `s` holds a separator.
pub open spec fn last_separator(s: Seq<char>, lo: int, hi: int) -> Option<int>
    decreases hi - lo + 1,
{
    if hi < lo {
        None
    } else if is_separator(s[hi]) {
        Some(hi)
    } else {
        last_separator(s, lo, hi - 1)
    }
}

/// Where the chunk that starts at `start` ends (the index after its last
/// character), or `None` where the word at `start` is longer than `m`.
pub open spec fn chunk_end(s: Seq<char>, start: int, m: int) -> Option<int>
    recommends
        0 <= start < s.len(),
        0 <= m,
{
    if s.len() - start <= m {
        Some(s.len() as int)
    } else if m == 0 {
        None
    } else {
        let end = start + m - 1;
        if is_separator(s[end]) || is_separator(s[end + 1]) {
            Some(end + 1)
        } else {
            match last_separator(s, start, end) {
                Some(p) => Some(p + 1),
                None => None,
            }
        }
    }
}

/// The message of a failed segmentation: it shows the first `m` characters of
/// the text that could not be cut.
pub open spec fn too_long_message(prefix: Seq<char>) -> Seq<char> {
    "The word is too long to split into a short text: '"@ + prefix + "...'"@
}

/// The chunks of `s` from `start` on, or the message for the first word that
/// does not fit.
pub open spec fn segments_from(s: Seq<char>, start: int, m: int) -> Result<
    Seq<Seq<char>>,
    Seq<char>,
>
    decreases s.len() - start,
{
    if start < 0 || start >= s.len() || m < 0 {
        Ok(Seq::empty())
    } else {
        match chunk_end(s, start, m) {
            None => Err(too_long_message(s.subrange(start, start + m))),
            Some(e) => if start < e && e <= s.len() {
                match segments_from(s, e, m) {
                    Ok(rest) => Ok(seq![s.subrange(start, e)] + rest),
                    Err(msg) => Err(msg),
                }
            } else {
                Ok(Seq::empty())
            },
        }
    }
}

/// The segmentation of `s` under a budget of `m` characters per chunk.
pub open spec fn segment(s: Seq<char>, m: nat) -> Result<Seq<Seq<char>>, Seq<char>> {
    segments_from(s, 0, m as int)
}

/// What is known after some chunks are done and the rest is still to cut.
pub open spec fn after_chunks(done: Seq<Seq<char>>, rest: Result<Seq<Seq<char>>, Seq<char>>) -> Result<
    Seq<Seq<char>>,
    Seq<char>,
> {
    match rest {
        Ok(r) => Ok(done + r),
        Err(msg) => Err(msg),
    }
}

/// The views of a list of strings.
pub open spec fn views(v: Seq<String>) -> Seq<Seq<char>> {
    v.map_values(|s: String| s@)
}

/// Whether a character is white space as a pattern's `\s` reads it, worked
/// out from the list of those characters.
pub fn char_is_pattern_space(c: char) -> (r: bool)
    ensures
        r == is_pattern_space(c),
{
    let u: u32 = c as u32;
    (0x09 <= u && u <= 0x0D) || u == 0x20 || u == 0x85 || u == 0xA0 || u == 0x1680 || (0x2000 <= u
        && u <= 0x200A) || u == 0x2028 || u == 0x2029 || u == 0x202F || u == 0x205F || u == 0x3000
}

/// Whether a character is one next to which a text may be cut.
pub fn char_is_separator(c: char) -> (r: bool)
    ensures
        r == is_separator(c),
{
    let u: u32 = c as u32;
    let punct = (0x21 <= u && u <= 0x2F) || (0x3A <= u && u <= 0x40) || u == 0x5C || u == 0x5E
        || u == 0x5F || u == 0x60 || (0x7B <= u && u <= 0x7E);
    char_is_pattern_space(c) || u == 0xFEFF || punct
}

/// `last_separator` finds a separator inside the range, and none lies after it.
pub proof fn lemma_last_separator(s: Seq<char>, lo: int, hi: int)
    requires
        0 <= lo,
        hi < s.len(),
    ensures
        match last_separator(s, lo, hi) {
            Some(p) => lo <= p <= hi && is_separator(s[p]) && forall|j: int|
                p < j <= hi ==> !is_separator(#[trigger] s[j]),
            None => forall|j: int| lo <= j <= hi ==> !is_separator(#[trigger] s[j]),
        },
    decreases hi - lo + 1,
{
    if hi >= lo && !is_separator(s[hi]) {
        lemma_last_separator(s, lo, hi - 1);
    }
}

/// A chunk is never empty and never runs past the text or the budget.
pub proof fn lemma_chunk_end_bounds(s: Seq<char>, start: int, m: int)
    requires
        0 <= start < s.len(),
        0 <= m,
    ensures
        chunk_end(s, start, m) matches Some(e) ==> start < e <= s.len() && e - start <= m,
{
    if s.len() - start > m && m > 0 {
        lemma_last_separator(s, start, start + m - 1);
    }
}

/// Where a chunk ends before the end of the text, a separator stands on one
/// side of the cut.
pub proof fn lemma_chunk_end_at_separator(s: Seq<char>, start: int, m: int)
    requires
        0 <= start < s.len(),
        0 <= m,
        s.len() - start > m,
    ensures
        chunk_end(s, start, m) matches Some(e) ==> start < e < s.len() && (is_separator(s[e - 1])
            || is_separator(s[e])),
        chunk_end(s, start, m) is None && m >= 1 ==> forall|j: int|
            start <= j <= start + m ==> !is_separator(#[trigger] s[j]),
{
    if m > 0 {
        lemma_last_separator(s, start, start + m - 1);
    }
}

/// `chunks` is a faithful cutting of `s`: put end to end the chunks give `s`
/// back, each holds between one and `m` characters, and a separator stands on
/// one side of every cut.
pub open spec fn well_cut(chunks: Seq<Seq<char>>, s: Seq<char>, m: int) -> bool {
    &&& chunks.flatten() == s
    &&& forall|i: int| 0 <= i < chunks.len() ==> 1 <= (#[trigger] chunks[i]).len() <= m
    &&& forall|i: int|
        0 < i < chunks.len() ==> is_separator((#[trigger] chunks[i - 1]).last()) || is_separator(
            chunks[i].first(),
        )
}

/// `s` holds a word of more than `m` characters: `m + 1` characters in a row,
/// none of them a separator.
pub open spec fn has_long_word(s: Seq<char>, m: int) -> bool {
    exists|i: int| is_long_word_at(s, m, i)
}

/// The `m + 1` characters of `s` from index `i` on are all inside one word.
pub open spec fn is_long_word_at(s: Seq<char>, m: int, i: int) -> bool {
    &&& 0 <= i
    &&& i + m < s.len()
    &&& forall|j: int| i <= j <= i + m ==> !is_separator(#[trigger] s[j])
}

proof fn lemma_segments_well_cut(s: Seq<char>, start: int, m: int)
    requires
        0 <= start <= s.len(),
        0 <= m,
    ensures
        segments_from(s, start, m) matches Ok(chunks) ==> {
            &&& well_cut(chunks, s.subrange(start, s.len() as int), m)
            &&& start < s.len() ==> chunks.len() > 0 && chunks[0].len() > 0 && chunks[0][0]
                == s[start]
        },
        segments_from(s, start, m) is Err && m >= 1 ==> has_long_word(s, m),
    decreases s.len() - start,
{
    let tail = s.subrange(start, s.len() as int);
    if start >= s.len() {
        assert(tail =~= Seq::<char>::empty());
        assert(Seq::<Seq<char>>::empty().flatten() =~= Seq::<char>::empty());
    } else {
        lemma_chunk_end_bounds(s, start, m);
        match chunk_end(s, start, m) {
            None => {
                if m >= 1 {
                    lemma_chunk_end_at_separator(s, start, m);
                    assert(is_long_word_at(s, m, start));
                }
            },
            Some(e) => {
                lemma_segments_well_cut(s, e, m);
                match segments_from(s, e, m) {
                    Ok(rest) => {
                        let piece = s.subrange(start, e);
                        let chunks = seq![piece] + rest;
                        assert(chunks.first() == piece);
                        assert(chunks.drop_first() =~= rest);
                        assert(chunks.flatten() == piece + rest.flatten());
                        assert(piece + s.subrange(e, s.len() as int) =~= tail);
                        assert forall|i: int| 0 <= i < chunks.len() implies 1 <= (
                        #[trigger] chunks[i]).len() <= m by {
                            if i > 0 {
                                assert(chunks[i] == rest[i - 1]);
                            }
                        }
                        assert forall|i: int| 0 < i < chunks.len() implies is_separator(
                            (#[trigger] chunks[i - 1]).last(),
                        ) || is_separator(chunks[i].first()) by {
                            if i == 1 {
                                lemma_chunk_end_at_separator(s, start, m);
                                assert(chunks[0].last() == s[e - 1]);
                                assert(chunks[1] == rest[0]);
                            } else {
                                assert(chunks[i - 1] == rest[i - 2]);
                                assert(chunks[i] == rest[i - 1]);
                            }
                        }
                    },
                    Err(_) => {},
                }
            },
        }
    }
}

proof fn lemma_long_word_fails(s: Seq<char>, start: int, m: int, i: int)
    requires
        0 <= start <= i,
        1 <= m,
        is_long_word_at(s, m, i),
        start == 0 || is_separator(s[start - 1]) || is_separator(s[start]),
    ensures
        segments_from(s, start, m) is Err,
    decreases s.len() - start,
{
    lemma_chunk_end_bounds(s, start, m);
    lemma_chunk_end_at_separator(s, start, m);
    match chunk_end(s, start, m) {
        None => {},
        Some(e) => {
            if e > i {
                assert(!is_separator(s[e - 1]));
                assert(!is_separator(s[e]));
            }
            lemma_long_word_fails(s, e, m, i);
        },
    }
}

/// The law of segmentation. A segmentation that succeeds is a faithful
/// cutting of the text: the chunks put end to end give the text back, none is
/// empty or longer than the budget, and every cut has a separator on one of
/// its sides. With a budget of at least one character, segmentation fails
/// exactly where the text holds a word that is longer than the budget. With a
/// budget of zero it fails on every text but the empty one.
pub proof fn law_segmentation_boundaries(s: Seq<char>, m: nat)
    ensures
        segment(s, m) matches Ok(chunks) ==> well_cut(chunks, s, m as int),
        m >= 1 ==> (segment(s, m) is Err <==> has_long_word(s, m as int)),
        m == 0 ==> (segment(s, m) is Err <==> s.len() > 0),
{
    lemma_segments_well_cut(s, 0, m as int);
    assert(s.subrange(0, s.len() as int) =~= s);
    if m >= 1 && has_long_word(s, m as int) {
        let i = choose|i: int| is_long_word_at(s, m as int, i);
        lemma_long_word_fails(s, 0, m as int, i);
    }
}

/// The greatest index in `lo..=hi` at which `chars` holds a separator.
fn find_last_separator(chars: &Vec<char>, lo: usize, hi: usize) -> (r: Option<usize>)
    requires
        lo <= hi < chars.len(),
    ensures
        match r {
            Some(p) => last_separator(chars@, lo as int, hi as int) == Some(p as int),
            None => last_separator(chars@, lo as int, hi as int) is None,
        },
{
    let mut i: usize = hi;
    loop
        invariant
            lo <= i <= hi < chars.len(),
            last_separator(chars@, lo as int, hi as int) == last_separator(
                chars@,
                lo as int,
                i as int,
            ),
        decreases i - lo,
    {
        if char_is_separator(chars[i]) {
            return Some(i);
        }
        if i == lo {
            assert(last_separator(chars@, lo as int, lo as int - 1) is None);
            return None;
        }
        i -= 1;
    }
}

/// Splits `text` into chunks of at most `max_length` characters each, cutting
/// only next to a separator.
///
/// The chunks keep every character of the text, separators included, so that
/// they read back to `text` when put end to end. Where a word of more than
/// `max_length` characters stands at a place where a cut is due, nothing is
/// returned but a message that shows where.
pub fn split_long_text_static(text: &str, max_length: usize) -> (r: Result<Vec<String>, String>)
    ensures
        match r {
            Ok(chunks) => segment(text@, max_length as nat) == Ok::<Seq<Seq<char>>, Seq<char>>(
                views(chunks@),
            ),
            Err(msg) => segment(text@, max_length as nat) == Err::<Seq<Seq<char>>, Seq<char>>(
                msg@,
            ),
        },
{
    let chars = chars_of(text);
    let n = chars.len();
    let mut result: Vec<String> = Vec::new();
    let mut start: usize = 0;
    assert(views(result@) + Seq::<Seq<char>>::empty() =~= Seq::<Seq<char>>::empty());
    while start < n
        invariant
            chars@ == text@,
            n == chars.len(),
            start <= n,
            segment(text@, max_length as nat) == after_chunks(
                views(result@),
                segments_from(text@, start as int, max_length as int),
            ),
        decreases n - start,
    {
        let ghost done = views(result@);
        proof {
            lemma_chunk_end_bounds(text@, start as int, max_length as int);
        }
        let end: usize;
        if n - start <= max_length {
            end = n;
        } else if max_length == 0 {
            let prefix = string_of_range(&chars, start, start);
            let head = concat("The word is too long to split into a short text: '", prefix.as_str());
            return Err(concat(head.as_str(), "...'"));
        } else {
            let tentative: usize = start + max_length - 1;
            if char_is_separator(chars[tentative]) || char_is_separator(chars[tentative + 1]) {
                end = tentative + 1;
            } else {
                match find_last_separator(&chars, start, tentative) {
                    Some(p) => {
                        end = p + 1;
                    },
                    None => {
                        let prefix = string_of_range(&chars, start, start + max_length);
                        let head = concat(
                            "The word is too long to split into a short text: '",
                            prefix.as_str(),
                        );
                        return Err(concat(head.as_str(), "...'"));
                    },
                }
            }
        }
        let chunk = string_of_range(&chars, start, end);
        result.push(chunk);
        proof {
            let piece = text@.subrange(start as int, end as int);
            assert(views(result@) =~= done.push(piece));
            match segments_from(text@, end as int, max_length as int) {
                Ok(rest) => {
                    assert(done + (seq![piece] + rest) =~= done.push(piece) + rest);
                },
                Err(_) => {},
            }
        }
        start = end;
    }
    assert(views(result@) + Seq::<Seq<char>>::empty() =~= views(result@));
    Ok(result)
}

} // verus!
