//! Characters and strings: the small vocabulary the rest of the library is
//! written in. Contracts speak of a string through its view, a `Seq<char>`.

use vstd::prelude::*;

verus! {

/// `c` is one of `0` to `9`.
pub open spec fn is_ascii_digit(c: char) -> bool {
    '0' <= c && c <= '9'
}

/// `c` is one of `A` to `Z` or `a` to `z`.
pub open spec fn is_ascii_letter(c: char) -> bool {
    ('A' <= c && c <= 'Z') || ('a' <= c && c <= 'z')
}

/// `c` with `a` to `z` moved to `A` to `Z`; any other character unchanged.
pub open spec fn ascii_upper(c: char) -> char {
    if 'a' <= c && c <= 'z' {
        ((c as u8 - 32) as u8) as char
    } else {
        c
    }
}

/// `c` with `A` to `Z` moved to `a` to `z`; any other character unchanged.
pub open spec fn ascii_lower(c: char) -> char {
    if 'A' <= c && c <= 'Z' {
        ((c as u8 + 32) as u8) as char
    } else {
        c
    }
}

/// The character that writes the digit `d`, for `d` below ten.
pub open spec fn digit_char(d: nat) -> char
    recommends
        d < 10,
{
    ((48 + d) as u8) as char
}

/// `n` written in base ten, without sign or padding.
pub open spec fn decimal_text(n: nat) -> Seq<char>
    decreases n,
{
    if n < 10 {
        seq![digit_char(n)]
    } else {
        decimal_text(n / 10).push(digit_char(n % 10))
    }
}

pub fn char_is_ascii_digit(c: char) -> (r: bool)
    ensures
        r == is_ascii_digit(c),
{
    c >= '0' && c <= '9'
}

pub fn char_is_ascii_letter(c: char) -> (r: bool)
    ensures
        r == is_ascii_letter(c),
{
    (c >= 'A' && c <= 'Z') || (c >= 'a' && c <= 'z')
}

pub fn char_ascii_upper(c: char) -> (r: char)
    ensures
        r == ascii_upper(c),
{
    if c >= 'a' && c <= 'z' {
        let b: u8 = c as u8;
        (b - 32) as char
    } else {
        c
    }
}

pub fn char_ascii_lower(c: char) -> (r: char)
    ensures
        r == ascii_lower(c),
{
    if c >= 'A' && c <= 'Z' {
        let b: u8 = c as u8;
        (b + 32) as char
    } else {
        c
    }
}

/// The digit character for a value below ten.
pub fn char_of_digit(d: u8) -> (r: char)
    requires
        d < 10,
    ensures
        r == digit_char(d as nat),
        is_ascii_digit(r),
{
    (48 + d) as char
}

/// Whether `c` is a letter or a number in the sense of Unicode: what
/// `char::is_alphanumeric` of the standard library answers for `c`.
pub uninterp spec fn unicode_alphanumeric(c: char) -> bool;

/// Whether `c` is a letter or a number in the sense of Unicode, with the
/// answer for ASCII written out: among the ASCII characters, the letters and
/// the digits are, and no other is.
pub open spec fn is_alphanumeric(c: char) -> bool {
    if c <= '\u{7f}' {
        is_ascii_letter(c) || is_ascii_digit(c)
    } else {
        unicode_alphanumeric(c)
    }
}

/// Whether `c` is white space in the sense of Unicode: the characters that
/// have the property `White_Space`.
pub open spec fn is_white_space(c: char) -> bool {
    let u = c as u32;
    (0x09 <= u && u <= 0x0D) || u == 0x20 || u == 0x85 || u == 0xA0 || u == 0x1680 || (0x2000 <= u
        && u <= 0x200A) || u == 0x2028 || u == 0x2029 || u == 0x202F || u == 0x205F || u == 0x3000
}

/// The lower-case form of `s` in the sense of Unicode: what `str::to_lowercase`
/// of the standard library returns for `s`.
pub uninterp spec fn unicode_lowercase(s: Seq<char>) -> Seq<char>;

/// Whether all characters of `s` are ASCII characters.
pub open spec fn is_ascii_text(s: Seq<char>) -> bool {
    forall|i: int| 0 <= i < s.len() ==> #[trigger] s[i] <= '\u{7f}'
}

/// The lower-case form of `s` in the sense of Unicode, with the answer for
/// ASCII written out: in a text of ASCII characters, the letters `A` to `Z`
/// become `a` to `z` and nothing else changes.
pub open spec fn lowercase(s: Seq<char>) -> Seq<char> {
    if is_ascii_text(s) {
        s.map_values(|c: char| ascii_lower(c))
    } else {
        unicode_lowercase(s)
    }
}

/// `char::is_alphanumeric` of the standard library: whether the character is
/// alphabetic or numeric by its Unicode properties. The answer depends on the
/// character alone. For the ASCII characters it is claimed in full: the
/// letters `A` to `Z` and `a` to `z` and the digits `0` to `9` are
/// alphanumeric, and no other ASCII character is. Of the characters beyond
/// ASCII nothing more is claimed.
#[verifier::external_body]
pub(crate) fn char_is_alphanumeric(c: char) -> (r: bool)
    ensures
        r == unicode_alphanumeric(c),
        r == is_alphanumeric(c),
{
    c.is_alphanumeric()
}

/// `char::is_whitespace` of the standard library: whether the character has
/// the Unicode property `White_Space`. The claim is the list of those
/// characters: U+0009 to U+000D, U+0020, U+0085, U+00A0, U+1680, U+2000 to
/// U+200A, U+2028, U+2029, U+202F, U+205F and U+3000.
#[verifier::external_body]
pub(crate) fn char_is_whitespace(c: char) -> (r: bool)
    ensures
        r == is_white_space(c),
{
    c.is_whitespace()
}

/// `str::to_lowercase` of the standard library: the lower-case form of the
/// string by the Unicode property `Lowercase`. The result depends on the
/// characters of `s` alone. For a string of ASCII characters it is claimed in
/// full: the letters `A` to `Z` become `a` to `z`, and every other character
/// stays. Of a string with a character beyond ASCII nothing more is claimed.
#[verifier::external_body]
pub(crate) fn to_lowercase(s: &str) -> (r: String)
    ensures
        r@ == unicode_lowercase(s@),
        r@ == lowercase(s@),
{
    s.to_lowercase()
}

/// The characters of `s`, in order.
pub fn chars_of(s: &str) -> (v: Vec<char>)
    ensures
        v@ == s@,
{
    let mut v: Vec<char> = Vec::new();
    for c in it: s.chars()
        invariant
            it.seq() == s@,
            v@ == it.seq().take(it.index()),
    {
        v.push(c);
    }
    v
}

/// `String::push` of the standard library: the string grows by exactly the
/// one character, at its end.
#[verifier::external_body]
pub(crate) fn push_char(s: &mut String, c: char)
    ensures
        final(s)@ == old(s)@.push(c),
{
    s.push(c);
}

/// The string made of `chars[from..to]`.
pub fn string_of_range(chars: &Vec<char>, from: usize, to: usize) -> (s: String)
    requires
        from <= to <= chars.len(),
    ensures
        s@ == chars@.subrange(from as int, to as int),
{
    let mut s = String::new();
    let mut i: usize = from;
    while i < to
        invariant
            from <= i <= to <= chars.len(),
            s@ == chars@.subrange(from as int, i as int),
        decreases to - i,
    {
        push_char(&mut s, chars[i]);
        i += 1;
    }
    s
}

/// The string made of all of `chars`.
pub fn string_of_chars(chars: &Vec<char>) -> (s: String)
    ensures
        s@ == chars@,
{
    let s = string_of_range(chars, 0, chars.len());
    assert(chars@.subrange(0, chars@.len() as int) == chars@);
    s
}

/// `a` followed by `b`.
pub fn concat(a: &str, b: &str) -> (s: String)
    ensures
        s@ == a@ + b@,
{
    let mut s = String::from_str(a);
    s.append(b);
    s
}

/// Whether two strings hold the same characters.
pub fn str_equal(a: &str, b: &str) -> (r: bool)
    ensures
        r == (a@ == b@),
{
    let x = String::from_str(a);
    let y = String::from_str(b);
    x == y
}

/// The views of a list of character vectors.
pub open spec fn rows(v: Seq<Vec<char>>) -> Seq<Seq<char>> {
    v.map_values(|r: Vec<char>| r@)
}

/// The pieces of `s` between the occurrences of `d`, empty pieces included:
/// one piece more than `s` holds occurrences of `d`.
pub open spec fn split_on(s: Seq<char>, d: char) -> Seq<Seq<char>>
    decreases s.len(),
{
    if s.len() == 0 {
        seq![Seq::<char>::empty()]
    } else {
        let before = split_on(s.drop_last(), d);
        if s.last() == d {
            before.push(Seq::<char>::empty())
        } else {
            before.drop_last().push(before.last().push(s.last()))
        }
    }
}

/// The pieces of a list that hold at least one character.
pub open spec fn non_empty(pieces: Seq<Seq<char>>) -> Seq<Seq<char>> {
    pieces.filter(|p: Seq<char>| p.len() > 0)
}

/// The pieces put end to end, with `d` between each two neighbours.
pub open spec fn join_with(pieces: Seq<Seq<char>>, d: char) -> Seq<char>
    decreases pieces.len(),
{
    if pieces.len() == 0 {
        Seq::<char>::empty()
    } else if pieces.len() == 1 {
        pieces[0]
    } else {
        join_with(pieces.drop_last(), d).push(d) + pieces.last()
    }
}

/// `s` with every `from` replaced by `to`.
pub open spec fn replaced(s: Seq<char>, from: char, to: char) -> Seq<char> {
    s.map_values(|c: char| if c == from { to } else { c })
}

/// A split always yields at least one piece.
pub proof fn lemma_split_on_non_empty(s: Seq<char>, d: char)
    ensures
        split_on(s, d).len() >= 1,
    decreases s.len(),
{
    if s.len() > 0 {
        lemma_split_on_non_empty(s.drop_last(), d);
    }
}

/// A text that holds no `d` is one piece.
pub proof fn lemma_split_on_whole(s: Seq<char>, d: char)
    requires
        forall|i: int| 0 <= i < s.len() ==> #[trigger] s[i] != d,
    ensures
        split_on(s, d) == seq![s],
    decreases s.len(),
{
    if s.len() > 0 {
        let t = s.drop_last();
        assert forall|i: int| 0 <= i < t.len() implies #[trigger] t[i] != d by {
            assert(t[i] == s[i]);
        }
        lemma_split_on_whole(t, d);
        assert(t.push(s.last()) =~= s);
        let pieces = seq![t].drop_last().push(seq![t].last().push(s.last()));
        assert(pieces.len() == 1);
        assert(pieces[0] == s);
        assert(pieces =~= seq![s]);
    } else {
        assert(s =~= Seq::<char>::empty());
    }
}

/// The pieces of two texts with a `d` between them are the pieces of the
/// first, then the pieces of the second.
pub proof fn lemma_split_on_joined(a: Seq<char>, b: Seq<char>, d: char)
    ensures
        split_on(a + seq![d] + b, d) == split_on(a, d) + split_on(b, d),
    decreases b.len(),
{
    let whole = a + seq![d] + b;
    if b.len() == 0 {
        assert(whole.drop_last() =~= a);
        assert(whole.last() == d);
        assert(split_on(a, d).push(Seq::<char>::empty()) =~= split_on(a, d) + split_on(b, d));
    } else {
        let t = b.drop_last();
        lemma_split_on_joined(a, t, d);
        lemma_split_on_non_empty(t, d);
        assert(whole.drop_last() =~= a + seq![d] + t);
        assert(whole.last() == b.last());
        let before = split_on(a, d) + split_on(t, d);
        if b.last() == d {
            assert(before.push(Seq::<char>::empty()) =~= split_on(a, d) + split_on(t, d).push(
                Seq::<char>::empty(),
            ));
        } else {
            assert(before.last() == split_on(t, d).last());
            assert(before.drop_last() =~= split_on(a, d) + split_on(t, d).drop_last());
            assert(before.drop_last().push(before.last().push(b.last())) =~= split_on(a, d)
                + split_on(t, d).drop_last().push(split_on(t, d).last().push(b.last())));
        }
    }
}

/// Whether two vectors hold the same characters.
pub fn chars_equal(a: &Vec<char>, b: &Vec<char>) -> (r: bool)
    ensures
        r == (a@ == b@),
{
    if a.len() != b.len() {
        return false;
    }
    let mut i: usize = 0;
    while i < a.len()
        invariant
            a.len() == b.len(),
            i <= a.len(),
            a@.take(i as int) == b@.take(i as int),
        decreases a.len() - i,
    {
        if a[i] != b[i] {
            return false;
        }
        assert(a@.take(i + 1) == a@.take(i as int).push(a@[i as int]));
        assert(b@.take(i + 1) == b@.take(i as int).push(b@[i as int]));
        i += 1;
    }
    assert(a@.take(i as int) == a@);
    assert(b@.take(i as int) == b@);
    true
}

/// Splits `chars` at every `d`.
pub fn split_chars(chars: &Vec<char>, d: char) -> (pieces: Vec<Vec<char>>)
    ensures
        rows(pieces@) == split_on(chars@, d),
{
    let mut pieces: Vec<Vec<char>> = Vec::new();
    let mut current: Vec<char> = Vec::new();
    let mut i: usize = 0;
    assert(chars@.take(0) =~= Seq::<char>::empty());
    assert(rows(pieces@).push(current@) =~= seq![Seq::<char>::empty()]);
    while i < chars.len()
        invariant
            i <= chars.len(),
            rows(pieces@).push(current@) == split_on(chars@.take(i as int), d),
        decreases chars.len() - i,
    {
        let c = chars[i];
        let ghost before = split_on(chars@.take(i as int), d);
        let ghost done = rows(pieces@);
        let ghost cur = current@;
        proof {
            let next = chars@.take(i + 1);
            assert(next.drop_last() =~= chars@.take(i as int));
            assert(next.last() == c);
            assert(before.last() == cur);
            assert(before.drop_last() =~= done);
        }
        if c == d {
            pieces.push(current);
            current = Vec::new();
            assert(rows(pieces@) =~= done.push(cur));
        } else {
            current.push(c);
        }
        i += 1;
    }
    assert(chars@.take(i as int) == chars@);
    let ghost done = rows(pieces@);
    let ghost cur = current@;
    pieces.push(current);
    assert(rows(pieces@) =~= done.push(cur));
    pieces
}

/// Keeps the pieces that hold at least one character.
pub fn drop_empty(pieces: Vec<Vec<char>>) -> (kept: Vec<Vec<char>>)
    ensures
        rows(kept@) == non_empty(rows(pieces@)),
{
    let mut kept: Vec<Vec<char>> = Vec::new();
    let mut i: usize = 0;
    let ghost all = rows(pieces@);
    let ghost pred = |p: Seq<char>| p.len() > 0;
    proof {
        reveal(Seq::filter);
        assert(all.take(0) =~= Seq::<Seq<char>>::empty());
        assert(rows(kept@) =~= Seq::<Seq<char>>::empty());
    }
    while i < pieces.len()
        invariant
            i <= pieces.len(),
            all == rows(pieces@),
            pred == |p: Seq<char>| p.len() > 0,
            rows(kept@) == all.take(i as int).filter(pred),
        decreases pieces.len() - i,
    {
        let ghost done = rows(kept@);
        proof {
            reveal(Seq::filter);
            let next = all.take(i + 1);
            assert(next.drop_last() =~= all.take(i as int));
            assert(next.last() == pieces@[i as int]@);
        }
        if pieces[i].len() > 0 {
            kept.push(pieces[i].clone());
            assert(rows(kept@) =~= done.push(pieces@[i as int]@));
        }
        i += 1;
    }
    assert(all.take(i as int) == all);
    kept
}

/// Puts the pieces end to end, with `d` between each two neighbours.
pub fn join_chars(pieces: &Vec<Vec<char>>, d: char) -> (out: Vec<char>)
    ensures
        out@ == join_with(rows(pieces@), d),
{
    let mut out: Vec<char> = Vec::new();
    let mut i: usize = 0;
    let ghost all = rows(pieces@);
    assert(all.take(0) =~= Seq::<Seq<char>>::empty());
    while i < pieces.len()
        invariant
            i <= pieces.len(),
            all == rows(pieces@),
            out@ == join_with(all.take(i as int), d),
        decreases pieces.len() - i,
    {
        let ghost before = out@;
        if i > 0 {
            out.push(d);
        }
        let piece = &pieces[i];
        let mut j: usize = 0;
        let ghost head = out@;
        while j < piece.len()
            invariant
                j <= piece.len(),
                out@ == head + piece@.take(j as int),
            decreases piece.len() - j,
        {
            out.push(piece[j]);
            assert(piece@.take(j + 1) == piece@.take(j as int).push(piece@[j as int]));
            assert(head + piece@.take(j as int).push(piece@[j as int]) =~= (head + piece@.take(
                j as int,
            )).push(piece@[j as int]));
            j += 1;
        }
        proof {
            assert(piece@.take(j as int) == piece@);
            let next = all.take(i + 1);
            assert(next.drop_last() =~= all.take(i as int));
            assert(next.last() == piece@);
            if i == 0 {
                assert(head + piece@ =~= piece@);
                assert(next[0] == piece@);
            }
        }
        i += 1;
    }
    assert(all.take(i as int) == all);
    out
}

/// Replaces every `from` in `chars` by `to`.
pub fn replace_char(chars: &Vec<char>, from: char, to: char) -> (out: Vec<char>)
    ensures
        out@ == replaced(chars@, from, to),
{
    let mut out: Vec<char> = Vec::new();
    let mut i: usize = 0;
    while i < chars.len()
        invariant
            i <= chars.len(),
            out@ == replaced(chars@.take(i as int), from, to),
        decreases chars.len() - i,
    {
        let c = chars[i];
        out.push(if c == from { to } else { c });
        assert(chars@.take(i + 1) == chars@.take(i as int).push(c));
        assert(replaced(chars@.take(i as int).push(c), from, to) =~= replaced(
            chars@.take(i as int),
            from,
            to,
        ).push(if c == from { to } else { c }));
        i += 1;
    }
    assert(chars@.take(i as int) == chars@);
    out
}

/// `s` without the white space at its start.
pub open spec fn trimmed_start(s: Seq<char>) -> Seq<char>
    decreases s.len(),
{
    if s.len() > 0 && is_white_space(s[0]) {
        trimmed_start(s.drop_first())
    } else {
        s
    }
}

/// `s` without the white space at its end.
pub open spec fn trimmed_end(s: Seq<char>) -> Seq<char>
    decreases s.len(),
{
    if s.len() > 0 && is_white_space(s.last()) {
        trimmed_end(s.drop_last())
    } else {
        s
    }
}

/// `s` without the white space at its start and at its end.
pub open spec fn trimmed(s: Seq<char>) -> Seq<char> {
    trimmed_end(trimmed_start(s))
}

/// Whether two texts are the same but for the case of their ASCII letters.
pub open spec fn same_ignoring_ascii_case(a: Seq<char>, b: Seq<char>) -> bool {
    a.len() == b.len() && forall|i: int|
        0 <= i < a.len() ==> ascii_lower(#[trigger] a[i]) == ascii_lower(b[i])
}

/// Cutting off a run of white space at the start is all that `trimmed_start`
/// does.
pub proof fn lemma_trimmed_start(s: Seq<char>, n: int)
    requires
        0 <= n <= s.len(),
        forall|i: int| 0 <= i < n ==> is_white_space(#[trigger] s[i]),
        n < s.len() ==> !is_white_space(s[n]),
    ensures
        trimmed_start(s) == s.skip(n),
    decreases n,
{
    if n == 0 {
        assert(s.skip(0) =~= s);
    } else {
        let t = s.drop_first();
        assert forall|i: int| 0 <= i < n - 1 implies is_white_space(#[trigger] t[i]) by {
            assert(t[i] == s[i + 1]);
        }
        lemma_trimmed_start(t, n - 1);
        assert(t.skip(n - 1) =~= s.skip(n));
    }
}

/// Cutting off a run of white space at the end is all that `trimmed_end` does.
pub proof fn lemma_trimmed_end(s: Seq<char>, n: int)
    requires
        0 <= n <= s.len(),
        forall|i: int| n <= i < s.len() ==> is_white_space(#[trigger] s[i]),
        n > 0 ==> !is_white_space(s[n - 1]),
    ensures
        trimmed_end(s) == s.take(n),
    decreases s.len() - n,
{
    if n == s.len() {
        assert(s.take(n) =~= s);
    } else {
        let t = s.drop_last();
        lemma_trimmed_end(t, n);
        assert(t.take(n) =~= s.take(n));
    }
}

/// `chars` without the white space at its start and at its end.
pub fn trim_chars(chars: &Vec<char>) -> (out: Vec<char>)
    ensures
        out@ == trimmed(chars@),
{
    let n = chars.len();
    let mut from: usize = 0;
    while from < n && char_is_whitespace(chars[from])
        invariant
            from <= n == chars.len(),
            forall|i: int| 0 <= i < from ==> is_white_space(#[trigger] chars@[i]),
        decreases n - from,
    {
        from += 1;
    }
    let mut to: usize = n;
    while to > from && char_is_whitespace(chars[to - 1])
        invariant
            from <= to <= n == chars.len(),
            forall|i: int| to <= i < n ==> is_white_space(#[trigger] chars@[i]),
        decreases to,
    {
        to -= 1;
    }
    let mut out: Vec<char> = Vec::new();
    let mut i: usize = from;
    while i < to
        invariant
            from <= i <= to <= chars.len(),
            out@ == chars@.subrange(from as int, i as int),
        decreases to - i,
    {
        out.push(chars[i]);
        i += 1;
    }
    proof {
        lemma_trimmed_start(chars@, from as int);
        let rest = chars@.skip(from as int);
        assert forall|k: int| to - from <= k < rest.len() implies is_white_space(
            #[trigger] rest[k],
        ) by {
            assert(rest[k] == chars@[k + from]);
        }
        if to > from {
            assert(rest[to - from - 1] == chars@[to - 1]);
        }
        lemma_trimmed_end(rest, to - from);
        assert(rest.take(to - from) =~= chars@.subrange(from as int, to as int));
    }
    out
}

/// Whether two texts are the same but for the case of their ASCII letters.
pub fn chars_equal_ignoring_ascii_case(a: &Vec<char>, b: &Vec<char>) -> (r: bool)
    ensures
        r == same_ignoring_ascii_case(a@, b@),
{
    if a.len() != b.len() {
        return false;
    }
    let mut i: usize = 0;
    while i < a.len()
        invariant
            a.len() == b.len(),
            i <= a.len(),
            forall|k: int| 0 <= k < i ==> ascii_lower(#[trigger] a@[k]) == ascii_lower(b@[k]),
        decreases a.len() - i,
    {
        if char_ascii_lower(a[i]) != char_ascii_lower(b[i]) {
            return false;
        }
        i += 1;
    }
    true
}

/// Whether `a` stands before `b`, or is `b`, in the order of a dictionary
/// that sorts by character code.
pub open spec fn text_le(a: Seq<char>, b: Seq<char>) -> bool
    decreases a.len(),
{
    if a.len() == 0 {
        true
    } else if b.len() == 0 {
        false
    } else if a[0] != b[0] {
        a[0] < b[0]
    } else {
        text_le(a.drop_first(), b.drop_first())
    }
}

/// The texts of a list are in dictionary order.
pub open spec fn texts_ordered(list: Seq<Seq<char>>) -> bool {
    forall|i: int, j: int| 0 <= i < j < list.len() ==> text_le(list[i], list[j])
}

/// Of two texts, one stands before the other or they are the same text.
pub proof fn lemma_text_le_total(a: Seq<char>, b: Seq<char>)
    ensures
        text_le(a, b) || text_le(b, a),
    decreases a.len(),
{
    if a.len() > 0 && b.len() > 0 && a[0] == b[0] {
        lemma_text_le_total(a.drop_first(), b.drop_first());
    }
}

/// The dictionary order is transitive.
pub proof fn lemma_text_le_transitive(a: Seq<char>, b: Seq<char>, c: Seq<char>)
    requires
        text_le(a, b),
        text_le(b, c),
    ensures
        text_le(a, c),
    decreases a.len(),
{
    if a.len() > 0 && b.len() > 0 && c.len() > 0 && a[0] == b[0] && b[0] == c[0] {
        lemma_text_le_transitive(a.drop_first(), b.drop_first(), c.drop_first());
    }
}

/// Whether `a` stands before `b`, or is `b`, in dictionary order.
pub fn chars_le(a: &Vec<char>, b: &Vec<char>) -> (r: bool)
    ensures
        r == text_le(a@, b@),
{
    let mut i: usize = 0;
    proof {
        assert(a@.skip(0) =~= a@);
        assert(b@.skip(0) =~= b@);
    }
    loop
        invariant
            i <= a.len(),
            i <= b.len(),
            text_le(a@, b@) == text_le(a@.skip(i as int), b@.skip(i as int)),
        decreases a.len() - i,
    {
        if i == a.len() {
            return true;
        }
        if i == b.len() {
            return false;
        }
        if a[i] != b[i] {
            return a[i] < b[i];
        }
        proof {
            assert(a@.skip(i as int).drop_first() =~= a@.skip(i + 1));
            assert(b@.skip(i as int).drop_first() =~= b@.skip(i + 1));
        }
        i += 1;
    }
}

/// Whether the string `a` stands before the string `b`, or is `b`, in
/// dictionary order.
pub fn str_le(a: &str, b: &str) -> (r: bool)
    ensures
        r == text_le(a@, b@),
{
    chars_le(&chars_of(a), &chars_of(b))
}

/// `n` in base ten.
pub fn decimal_string(n: u128) -> (s: String)
    ensures
        s@ == decimal_text(n as nat),
    decreases n,
{
    if n < 10 {
        let mut s = String::new();
        push_char(&mut s, char_of_digit(n as u8));
        s
    } else {
        let mut s = decimal_string(n / 10);
        push_char(&mut s, char_of_digit((n % 10) as u8));
        s
    }
}

} // verus!
