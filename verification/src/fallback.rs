//! The announcement of last resort: a playlist of pre-recorded fragments
//! ("stems"), one per letter and digit, built without any outside help.

use vstd::prelude::*;
use crate::text::{
    is_ascii_digit, is_ascii_letter, ascii_lower, lowercase, char_is_ascii_digit,
    char_is_ascii_letter, char_ascii_lower, chars_of, string_of_range, push_char, to_lowercase,
    str_equal, concat,
};
use crate::segment::views;

verus! {

/// A call id read as one letter followed by digits: the letter and the digits,
/// or `None` where the id is not of that shape. The digits may be none.
pub open spec fn parsed_call_id(id: Seq<char>) -> Option<(Seq<char>, Seq<char>)> {
    if id.len() >= 1 && is_ascii_letter(id[0]) && (forall|i: int|
        1 <= i < id.len() ==> is_ascii_digit(#[trigger] id[i])) {
        Some((id.take(1), id.skip(1)))
    } else {
        None
    }
}

/// The directory of stems for a language code in lower case: Thai has its
/// own, and every other code, the English family included, shares `en`.
pub open spec fn stem_dir(lowered: Seq<char>) -> Seq<char> {
    if lowered == "th"@ {
        "th"@
    } else {
        "en"@
    }
}

/// The URL of the directory of stems for a language.
pub open spec fn stem_base(lang: Seq<char>) -> Seq<char> {
    "/media/audio_stems/"@ + stem_dir(lowercase(lang))
}

/// The URL of the stem that speaks the digit `c`.
pub open spec fn number_url(base: Seq<char>, c: char) -> Seq<char> {
    base + "/number_00"@ + seq![c] + ".mp3"@
}

/// One stem URL for each digit of `s`, in order; other characters are passed
/// over.
pub open spec fn digit_urls(base: Seq<char>, s: Seq<char>) -> Seq<Seq<char>>
    decreases s.len(),
{
    if s.len() == 0 {
        Seq::<Seq<char>>::empty()
    } else {
        let before = digit_urls(base, s.drop_last());
        if is_ascii_digit(s.last()) {
            before.push(number_url(base, s.last()))
        } else {
            before
        }
    }
}

/// The stems that speak a call id: its letter, in lower case, and each of its
/// digits; or, for an id of another shape, the one stem named after the whole
/// id in lower case.
pub open spec fn id_urls(base: Seq<char>, id: Seq<char>) -> Seq<Seq<char>> {
    match parsed_call_id(id) {
        Some((letter, digits)) => seq![
            base + "/char_"@ + seq![ascii_lower(letter[0])] + ".mp3"@,
        ] + digit_urls(base, digits),
        None => seq![base + "/fallback_"@ + lowercase(id) + ".mp3"@],
    }
}

/// The playlist that announces a call in one language: the lead-in, the id,
/// the words "to counter", and the digits of the location.
pub open spec fn stem_urls_for_language(
    id: Seq<char>,
    location: Seq<char>,
    lang: Seq<char>,
) -> Seq<Seq<char>> {
    let base = stem_base(lang);
    seq![base + "/phrase_number.mp3"@] + id_urls(base, id) + seq![
        base + "/phrase_to_counter.mp3"@,
    ] + digit_urls(base, location)
}

/// The playlist that announces a call in each of the languages, in their
/// order.
pub open spec fn stem_urls(
    id: Seq<char>,
    location: Seq<char>,
    languages: Seq<Seq<char>>,
) -> Seq<Seq<char>>
    decreases languages.len(),
{
    if languages.len() == 0 {
        Seq::<Seq<char>>::empty()
    } else {
        stem_urls(id, location, languages.drop_last()) + stem_urls_for_language(
            id,
            location,
            languages.last(),
        )
    }
}

/// Reads a call id as one letter followed by digits.
pub fn parse_call_id(id: &str) -> (r: Option<(String, String)>)
    ensures
        match r {
            Some((letter, digits)) => parsed_call_id(id@) == Some((letter@, digits@)),
            None => parsed_call_id(id@) is None,
        },
{
    let chars = chars_of(id);
    if chars.len() == 0 {
        return None;
    }
    if !char_is_ascii_letter(chars[0]) {
        return None;
    }
    let mut i: usize = 1;
    while i < chars.len()
        invariant
            1 <= i <= chars.len(),
            chars@ == id@,
            forall|k: int| 1 <= k < i ==> is_ascii_digit(#[trigger] chars@[k]),
        decreases chars.len() - i,
    {
        if !char_is_ascii_digit(chars[i]) {
            return None;
        }
        i += 1;
    }
    let letter = string_of_range(&chars, 0, 1);
    let digits = string_of_range(&chars, 1, chars.len());
    Some((letter, digits))
}

/// The directory of stems for a language code that is already in lower case.
pub fn stem_dir_for(lowered: &str) -> (dir: &'static str)
    ensures
        dir@ == stem_dir(lowered@),
{
    if str_equal(lowered, "th") {
        "th"
    } else {
        "en"
    }
}

/// The URL of the directory of stems for a language.
pub fn stem_base_for(lang: &str) -> (base: String)
    ensures
        base@ == stem_base(lang@),
{
    let lowered = to_lowercase(lang);
    concat("/media/audio_stems/", stem_dir_for(lowered.as_str()))
}

/// Appends one stem URL for each digit among `chars`.
fn push_digit_urls(urls: &mut Vec<String>, base: &str, chars: &Vec<char>)
    ensures
        views(final(urls)@) == views(old(urls)@) + digit_urls(base@, chars@),
{
    let ghost start = views(urls@);
    let mut i: usize = 0;
    assert(chars@.take(0) =~= Seq::<char>::empty());
    assert(start + digit_urls(base@, chars@.take(0)) =~= start);
    while i < chars.len()
        invariant
            i <= chars.len(),
            views(urls@) == start + digit_urls(base@, chars@.take(i as int)),
        decreases chars.len() - i,
    {
        let c = chars[i];
        let ghost before = views(urls@);
        proof {
            let next = chars@.take(i + 1);
            assert(next.drop_last() =~= chars@.take(i as int));
            assert(next.last() == c);
        }
        if char_is_ascii_digit(c) {
            let mut url = concat(base, "/number_00");
            push_char(&mut url, c);
            url.append(".mp3");
            assert(url@ =~= number_url(base@, c));
            urls.push(url);
            assert(views(urls@) =~= before.push(number_url(base@, c)));
            assert(start + digit_urls(base@, chars@.take(i as int)).push(number_url(base@, c))
                =~= before.push(number_url(base@, c)));
        }
        i += 1;
    }
    assert(chars@.take(i as int) == chars@);
}

/// The playlist of stems that announces a call in one language.
pub fn build_stem_audio_urls_for_language(id: &str, location: &str, lang: &str) -> (urls: Vec<
    String,
>)
    ensures
        views(urls@) == stem_urls_for_language(id@, location@, lang@),
{
    let base = stem_base_for(lang);
    let mut urls: Vec<String> = Vec::new();
    urls.push(concat(base.as_str(), "/phrase_number.mp3"));
    assert(views(urls@) =~= seq![base@ + "/phrase_number.mp3"@]);
    match parse_call_id(id) {
        Some((letter, digits)) => {
            let letter_chars = chars_of(letter.as_str());
            let mut url = concat(base.as_str(), "/char_");
            push_char(&mut url, char_ascii_lower(letter_chars[0]));
            url.append(".mp3");
            assert(url@ =~= base@ + "/char_"@ + seq![ascii_lower(id@[0])] + ".mp3"@);
            let ghost before = views(urls@);
            urls.push(url);
            assert(views(urls@) =~= before.push(url@));
            push_digit_urls(&mut urls, base.as_str(), &chars_of(digits.as_str()));
            assert(id@.take(1)[0] == id@[0]);
            assert(views(urls@) =~= seq![base@ + "/phrase_number.mp3"@] + id_urls(base@, id@));
        },
        None => {
            let mut url = concat(base.as_str(), "/fallback_");
            url.append(to_lowercase(id).as_str());
            url.append(".mp3");
            assert(url@ =~= base@ + "/fallback_"@ + lowercase(id@) + ".mp3"@);
            let ghost before = views(urls@);
            urls.push(url);
            assert(views(urls@) =~= before.push(url@));
            assert(views(urls@) =~= seq![base@ + "/phrase_number.mp3"@] + id_urls(base@, id@));
        },
    }
    let ghost before = views(urls@);
    let to_counter = concat(base.as_str(), "/phrase_to_counter.mp3");
    urls.push(to_counter);
    assert(views(urls@) =~= before + seq![base@ + "/phrase_to_counter.mp3"@]);
    push_digit_urls(&mut urls, base.as_str(), &chars_of(location));
    urls
}

/// The playlist of stems that announces a call in each of the languages, in
/// their order. No network and no disk is involved.
pub fn build_stem_audio_urls(id: &str, location: &str, languages: &Vec<String>) -> (urls: Vec<
    String,
>)
    ensures
        views(urls@) == stem_urls(id@, location@, views(languages@)),
{
    let mut urls: Vec<String> = Vec::new();
    let ghost langs = views(languages@);
    let mut i: usize = 0;
    assert(langs.take(0) =~= Seq::<Seq<char>>::empty());
    assert(views(urls@) =~= Seq::<Seq<char>>::empty());
    while i < languages.len()
        invariant
            i <= languages.len(),
            langs == views(languages@),
            views(urls@) == stem_urls(id@, location@, langs.take(i as int)),
        decreases languages.len() - i,
    {
        let mut more = build_stem_audio_urls_for_language(id, location, languages[i].as_str());
        let ghost before = views(urls@);
        let ghost added = views(more@);
        urls.append(&mut more);
        proof {
            assert(views(urls@) =~= before + added);
            let next = langs.take(i + 1);
            assert(next.drop_last() =~= langs.take(i as int));
            assert(next.last() == languages@[i as int]@);
        }
        i += 1;
    }
    assert(langs.take(i as int) == langs);
    urls
}

/// A text of digits gives one stem for each of its characters.
pub proof fn lemma_digit_urls_len(base: Seq<char>, s: Seq<char>)
    requires
        forall|i: int| 0 <= i < s.len() ==> is_ascii_digit(#[trigger] s[i]),
    ensures
        digit_urls(base, s).len() == s.len(),
    decreases s.len(),
{
    if s.len() > 0 {
        lemma_digit_urls_len(base, s.drop_last());
    }
}

/// The fallback always has something to say. For a call id made of a letter
/// and digits, a location made of digits, and at least one language, the
/// playlist is not empty: for each language it holds the lead-in, the letter,
/// one stem for each digit of the id, the words "to counter", and one stem for
/// each digit of the location.
pub proof fn law_fallback_always_produces(
    id: Seq<char>,
    location: Seq<char>,
    languages: Seq<Seq<char>>,
)
    requires
        parsed_call_id(id) is Some,
        forall|i: int| 0 <= i < location.len() ==> is_ascii_digit(#[trigger] location[i]),
    ensures
        stem_urls(id, location, languages).len() == languages.len() * (1 + 1 + (id.len() - 1) + 1
            + location.len()),
        languages.len() > 0 ==> stem_urls(id, location, languages).len() > 0,
    decreases languages.len(),
{
    let per = 1 + 1 + (id.len() - 1) + 1 + location.len();
    if languages.len() > 0 {
        law_fallback_always_produces(id, location, languages.drop_last());
        let base = stem_base(languages.last());
        lemma_digit_urls_len(base, id.skip(1));
        lemma_digit_urls_len(base, location);
        assert(stem_urls_for_language(id, location, languages.last()).len() == per);
        assert(languages.len() * per == (languages.len() - 1) * per + per) by (nonlinear_arith);
        assert(languages.len() * per > 0) by (nonlinear_arith)
            requires
                languages.len() > 0,
                per >= 3,
        ;
    } else {
        assert(languages.len() * per == 0) by (nonlinear_arith)
            requires
                languages.len() == 0,
        ;
    }
}

/// Whatever the call id and the location are, the playlist holds at least
/// three stems for each language: the lead-in, something for the id, and the
/// words "to counter".
pub proof fn lemma_stem_urls_at_least(id: Seq<char>, location: Seq<char>, languages: Seq<Seq<char>>)
    ensures
        stem_urls(id, location, languages).len() >= 3 * languages.len(),
    decreases languages.len(),
{
    if languages.len() > 0 {
        lemma_stem_urls_at_least(id, location, languages.drop_last());
    }
}

} // verus!
