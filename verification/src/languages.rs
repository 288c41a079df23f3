//! The languages that the synthesis supports: a map from language code to
//! display name.

use vstd::prelude::*;
use crate::text::{
    split_on, trimmed, chars_of, split_chars, trim_chars, string_of_chars, str_equal, rows,
};

verus! {

/// A map from language code to display name. No code stands in it twice.
#[derive(Debug)]
pub struct LanguageMap {
    codes: Vec<String>,
    names: Vec<String>,
}

/// The index at which `codes` holds `code`, if it does.
pub open spec fn index_of_code(codes: Seq<String>, code: Seq<char>) -> Option<int> {
    if exists|i: int| 0 <= i < codes.len() && codes[i]@ == code {
        Some(choose|i: int| 0 <= i < codes.len() && codes[i]@ == code)
    } else {
        None
    }
}

/// What one entry of a list of languages adds to the map: a code and a
/// display name, or nothing. The entry is trimmed and read as the pieces
/// between its colons: two pieces are code and name, one piece that is not
/// empty is a code that is its own name, and anything else is passed over.
pub open spec fn entry_pair(entry: Seq<char>) -> Option<(Seq<char>, Seq<char>)> {
    let parts = split_on(trimmed(entry), ':');
    if parts.len() == 2 {
        Some((parts[0], parts[1]))
    } else if parts.len() == 1 && parts[0].len() > 0 {
        Some((parts[0], parts[0]))
    } else {
        None
    }
}

/// The map that the entries make, a later entry taking the place of an earlier
/// one for the same code.
pub open spec fn map_of_entries(entries: Seq<Seq<char>>) -> Map<Seq<char>, Seq<char>>
    decreases entries.len(),
{
    if entries.len() == 0 {
        Map::empty()
    } else {
        let before = map_of_entries(entries.drop_last());
        match entry_pair(entries.last()) {
            Some((code, name)) => before.insert(code, name),
            None => before,
        }
    }
}

/// The map of supported languages that a configured list states. The list
/// holds entries separated by commas.
pub open spec fn language_map_of(list: Seq<char>) -> Map<Seq<char>, Seq<char>> {
    map_of_entries(split_on(list, ','))
}

impl View for LanguageMap {
    type V = Map<Seq<char>, Seq<char>>;

    closed spec fn view(&self) -> Map<Seq<char>, Seq<char>> {
        Map::new(
            |code: Seq<char>| index_of_code(self.codes@, code) is Some,
            |code: Seq<char>| self.names@[index_of_code(self.codes@, code)->0]@,
        )
    }
}

impl LanguageMap {
    #[verifier::type_invariant]
    spec fn codes_once(self) -> bool {
        &&& self.codes.len() == self.names.len()
        &&& forall|i: int, j: int|
            0 <= i < j < self.codes.len() ==> self.codes@[i]@ != self.codes@[j]@
    }

    /// The empty map.
    pub fn new() -> (m: Self)
        ensures
            m@ == Map::<Seq<char>, Seq<char>>::empty(),
    {
        let m = LanguageMap { codes: Vec::new(), names: Vec::new() };
        assert(m@ =~= Map::<Seq<char>, Seq<char>>::empty());
        m
    }

    /// The index of `code` among the codes.
    fn position(&self, code: &str) -> (r: Option<usize>)
        ensures
            match r {
                Some(i) => i < self.codes.len() && self.codes@[i as int]@ == code@ && index_of_code(
                    self.codes@,
                    code@,
                ) == Some(i as int),
                None => index_of_code(self.codes@, code@) is None,
            },
    {
        proof {
            use_type_invariant(self);
        }
        let mut i: usize = 0;
        while i < self.codes.len()
            invariant
                i <= self.codes.len(),
                forall|k: int| 0 <= k < i ==> (#[trigger] self.codes@[k])@ != code@,
            decreases self.codes.len() - i,
        {
            if str_equal(self.codes[i].as_str(), code) {
                proof {
                    use_type_invariant(self);
                    let found = index_of_code(self.codes@, code@)->0;
                    assert(self.codes@[i as int]@ == code@);
                    if found < i {
                        assert(self.codes@[found]@ != code@);
                    } else if found > i {
                        assert(self.codes@[i as int]@ != self.codes@[found]@);
                    }
                }
                return Some(i);
            }
            i += 1;
        }
        None
    }

    /// Whether the map knows the language `code`.
    pub fn contains_key(&self, code: &str) -> (r: bool)
        ensures
            r == self@.dom().contains(code@),
    {
        self.position(code).is_some()
    }

    /// The display name of the language `code`.
    pub fn get(&self, code: &str) -> (r: Option<&String>)
        ensures
            match r {
                Some(name) => self@.dom().contains(code@) && self@[code@] == name@,
                None => !self@.dom().contains(code@),
            },
    {
        proof {
            use_type_invariant(self);
        }
        match self.position(code) {
            Some(i) => Some(&self.names[i]),
            None => None,
        }
    }

    /// Sets the display name of the language `code`, which the map may or may
    /// not know already.
    pub fn insert(&mut self, code: String, name: String)
        ensures
            final(self)@ == old(self)@.insert(code@, name@),
    {
        proof {
            use_type_invariant(&*self);
        }
        let ghost old_codes = self.codes@;
        let ghost old_names = self.names@;
        let ghost old_map = self@;
        match self.position(code.as_str()) {
            Some(at) => {
                let mut names = self.names.clone();
                names.set(at, name);
                self.names = names;
                proof {
                    assert forall|c: Seq<char>| self@.dom().contains(c) implies #[trigger] self@[c]
                        == old_map.insert(code@, name@)[c] by {
                        let i = index_of_code(self.codes@, c)->0;
                        if c != code@ {
                            assert(i != at);
                        }
                    }
                    assert(self@ =~= old_map.insert(code@, name@));
                }
            },
            None => {
                let mut codes = self.codes.clone();
                let mut names = self.names.clone();
                codes.push(code);
                names.push(name);
                proof {
                    assert forall|i: int, j: int| 0 <= i < j < codes.len() implies codes@[i]@
                        != codes@[j]@ by {
                        if j == old_codes.len() {
                            assert(old_codes[i]@ != code@);
                        } else {
                            assert(codes@[i] == old_codes[i]);
                            assert(codes@[j] == old_codes[j]);
                        }
                    }
                }
                *self = LanguageMap { codes, names };
                proof {
                    let new_codes = self.codes@;
                    let last = old_codes.len() as int;
                    assert(new_codes[last]@ == code@);
                    assert forall|c: Seq<char>|
                        self@.dom().contains(c) <==> #[trigger] old_map.insert(
                            code@,
                            name@,
                        ).dom().contains(c) by {
                        if index_of_code(new_codes, c) is Some {
                            let i = index_of_code(new_codes, c)->0;
                            if i < last {
                                assert(old_codes[i]@ == c);
                            }
                        }
                        if index_of_code(old_codes, c) is Some {
                            let i = index_of_code(old_codes, c)->0;
                            assert(new_codes[i]@ == c);
                        }
                    }
                    assert forall|c: Seq<char>| self@.dom().contains(c) implies #[trigger] self@[c]
                        == old_map.insert(code@, name@)[c] by {
                        let i = index_of_code(new_codes, c)->0;
                        if c == code@ {
                            if i < last {
                                assert(old_codes[i]@ == code@);
                            }
                        } else {
                            assert(i < last);
                            assert(old_codes[i]@ == c);
                            let k = index_of_code(old_codes, c)->0;
                            if k != i {
                                if k < i {
                                    assert(old_codes[k]@ != old_codes[i]@);
                                } else {
                                    assert(old_codes[i]@ != old_codes[k]@);
                                }
                            }
                        }
                    }
                    assert(self@ =~= old_map.insert(code@, name@));
                }
            },
        }
    }

    /// The codes and display names of the map, pair by pair, each code once.
    pub fn entries(&self) -> (pairs: Vec<(String, String)>)
        ensures
            pairs.len() == self@.dom().len(),
            forall|i: int|
                0 <= i < pairs.len() ==> self@.dom().contains((#[trigger] pairs@[i]).0@)
                    && self@[pairs@[i].0@] == pairs@[i].1@,
            forall|i: int, j: int| 0 <= i < j < pairs.len() ==> pairs@[i].0@ != pairs@[j].0@,
    {
        proof {
            use_type_invariant(self);
        }
        let mut pairs: Vec<(String, String)> = Vec::new();
        let mut i: usize = 0;
        while i < self.codes.len()
            invariant
                i <= self.codes.len(),
                self.codes.len() == self.names.len(),
                pairs.len() == i,
                forall|k: int|
                    0 <= k < i ==> (#[trigger] pairs@[k]).0@ == self.codes@[k]@ && pairs@[k].1@
                        == self.names@[k]@,
            decreases self.codes.len() - i,
        {
            pairs.push((self.codes[i].clone(), self.names[i].clone()));
            i += 1;
        }
        proof {
            assert forall|k: int| 0 <= k < pairs.len() implies self@.dom().contains(
                (#[trigger] pairs@[k]).0@,
            ) && self@[pairs@[k].0@] == pairs@[k].1@ by {
                let c = self.codes@[k]@;
                let found = index_of_code(self.codes@, c)->0;
                if found < k {
                    assert(self.codes@[found]@ != self.codes@[k]@);
                } else if found > k {
                    assert(self.codes@[k]@ != self.codes@[found]@);
                }
            }
            self.lemma_dom_len();
        }
        pairs
    }

    /// The map knows as many languages as it holds codes.
    proof fn lemma_dom_len(&self)
        requires
            self.codes_once(),
        ensures
            self@.dom().finite(),
            self@.dom().len() == self.codes.len(),
    {
        let keys = self.codes@.map_values(|s: String| s@);
        assert(keys.no_duplicates());
        keys.unique_seq_to_set();
        assert forall|c: Seq<char>| self@.dom().contains(c) <==> keys.to_set().contains(c) by {
            if index_of_code(self.codes@, c) is Some {
                let i = index_of_code(self.codes@, c)->0;
                assert(keys[i] == c);
            }
            if keys.contains(c) {
                let i = choose|i: int| 0 <= i < keys.len() && keys[i] == c;
                assert(self.codes@[i]@ == c);
            }
        }
        assert(self@.dom() =~= keys.to_set());
    }

    /// Reads a configured list of languages: entries separated by commas,
    /// each `code:Display Name` or just `code`.
    pub fn parse(list: &str) -> (m: Self)
        ensures
            m@ == language_map_of(list@),
    {
        let entries = split_chars(&chars_of(list), ',');
        let mut m = LanguageMap::new();
        let ghost all = rows(entries@);
        let mut i: usize = 0;
        assert(all.take(0) =~= Seq::<Seq<char>>::empty());
        while i < entries.len()
            invariant
                i <= entries.len(),
                all == rows(entries@),
                m@ == map_of_entries(all.take(i as int)),
            decreases entries.len() - i,
        {
            proof {
                let next = all.take(i + 1);
                assert(next.drop_last() =~= all.take(i as int));
                assert(next.last() == entries@[i as int]@);
            }
            let parts = split_chars(&trim_chars(&entries[i]), ':');
            if parts.len() == 2 {
                assert(rows(parts@)[0] == parts@[0]@);
                assert(rows(parts@)[1] == parts@[1]@);
                m.insert(string_of_chars(&parts[0]), string_of_chars(&parts[1]));
            } else if parts.len() == 1 && parts[0].len() > 0 {
                assert(rows(parts@)[0] == parts@[0]@);
                m.insert(string_of_chars(&parts[0]), string_of_chars(&parts[0]));
            } else {
                proof {
                    if parts.len() == 1 {
                        assert(rows(parts@)[0] == parts@[0]@);
                    }
                }
            }
            i += 1;
        }
        assert(all.take(i as int) == all);
        m
    }
}

impl Clone for LanguageMap {
    fn clone(&self) -> (copy: Self)
        ensures
            copy@ == self@,
    {
        proof {
            use_type_invariant(self);
        }
        let codes = self.codes.clone();
        let names = self.names.clone();
        assert(codes@ =~= self.codes@);
        assert(names@ =~= self.names@);
        let copy = LanguageMap { codes, names };
        assert(copy@ =~= self@);
        copy
    }
}

} // verus!
