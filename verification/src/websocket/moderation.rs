//! The chat moderation filter: a set of blacklisted words, and the test of whether a
//! chat message holds one of them once punctuation and case are set aside.
use vstd::prelude::*;

use crate::text::{
    ascii_lower_char, char_is_alphanumeric, char_is_whitespace, chars_of, contains_chars,
    contains_seq, fold_ascii_case, is_alphanumeric, is_ascii_lower, is_ascii_upper,
    is_whitespace, law_lowercase_ignores_ascii_case, lowercase, push_char, to_lowercase,
    is_ascii_text, is_ascii_char, occurs_at,
};
use crate::websocket::message_parser::{MessageTypes, TwitchMessage};

verus! {

/// The characters the filter keeps from a message: letters, digits and whitespace.
pub open spec fn kept_char(c: char) -> bool {
    char_is_alphanumeric(c) || char_is_whitespace(c)
}

/// A message as the filter reads it: only its kept characters, lower-cased.
pub open spec fn cleaned(message: Seq<char>) -> Seq<char> {
    lowercase(message.filter(|c: char| kept_char(c)))
}

/// Whether a message holds one of `words` once cleaned.
pub open spec fn blacklist_hit(words: Set<Seq<char>>, message: Seq<char>) -> bool {
    exists|w: Seq<char>| words.contains(w) && contains_seq(cleaned(message), w)
}

/// Whether one of `words` reads `w`.
pub open spec fn holds_word(words: Seq<String>, w: Seq<char>) -> bool {
    exists|k: int| 0 <= k < words.len() && words[k]@ == w
}

/// Whether one of the first `n` of `words`, lower-cased, reads `w`.
pub open spec fn lowers_to(words: Seq<&str>, n: int, w: Seq<char>) -> bool {
    exists|j: int| 0 <= j < n && w == lowercase(#[trigger] words[j]@)
}

/// A set of blacklisted words, each kept lower-cased and only once.
#[derive(Debug)]
pub struct Blacklist {
    words: Vec<String>,
}

impl View for Blacklist {
    type V = Set<Seq<char>>;

    closed spec fn view(&self) -> Set<Seq<char>> {
        Set::new(|w: Seq<char>| holds_word(self.words@, w))
    }
}

impl Blacklist {
    /// No word is held twice.
    #[verifier::type_invariant]
    closed spec fn words_distinct(self) -> bool {
        forall|i: int, j: int|
            0 <= i < j < self.words@.len() ==> self.words@[i]@ != self.words@[j]@
    }

    /// A blacklist of the given words, lower-cased.
    pub fn new(words: Vec<&str>) -> (r: Self)
        ensures
            forall|w: Seq<char>| #[trigger] r@.contains(w) <==> lowers_to(words@, words@.len() as int, w),
    {
        let mut kept: Vec<String> = Vec::new();
        let mut i: usize = 0;
        while i < words.len()
            invariant
                i <= words.len(),
                forall|a: int, b: int| 0 <= a < b < kept@.len() ==> kept@[a]@ != kept@[b]@,
                forall|w: Seq<char>| #[trigger] holds_word(kept@, w) <==> lowers_to(words@, i as int, w),
            decreases words.len() - i,
        {
            let lw = to_lowercase(words[i]);
            let mut present = false;
            let mut k: usize = 0;
            while k < kept.len()
                invariant
                    k <= kept.len(),
                    present <==> exists|m: int| 0 <= m < k && kept@[m]@ == lw@,
                decreases kept.len() - k,
            {
                if kept[k] == lw {
                    present = true;
                }
                k = k + 1;
            }
            let ghost before = kept@;
            if !present {
                kept.push(lw);
            }
            assert(!present ==> kept@ == before.push(lw));
            assert(present ==> kept@ == before);
            assert forall|w: Seq<char>| #[trigger] holds_word(kept@, w) <==> lowers_to(words@, i + 1, w) by {
                if lowers_to(words@, i + 1, w) {
                    let j = choose|j: int| 0 <= j < i + 1 && w == lowercase(#[trigger] words@[j]@);
                    if j < i {
                        assert(lowers_to(words@, i as int, w));
                        assert(holds_word(before, w));
                        let k = choose|k: int| 0 <= k < before.len() && before[k]@ == w;
                        assert(kept@[k] == before[k]);
                    } else if !present {
                        assert(kept@[before.len() as int]@ == w);
                    } else {
                        let m = choose|m: int| 0 <= m < before.len() && before[m]@ == lw@;
                        assert(kept@[m]@ == w);
                    }
                }
                if holds_word(kept@, w) {
                    let k = choose|k: int| 0 <= k < kept@.len() && kept@[k]@ == w;
                    if k < before.len() {
                        assert(before[k]@ == w);
                        assert(holds_word(before, w));
                    } else {
                        assert(w == lowercase(words@[i as int]@));
                    }
                }
            }
            i = i + 1;
        }
        Blacklist { words: kept }
    }

    /// Adds `word` to the blacklist as it is given (as inserting into the set of words
    /// does); answers whether it was new.
    pub fn insert_word(&mut self, word: String) -> (r: bool)
        ensures
            final(self)@ == old(self)@.insert(word@),
            r == !old(self)@.contains(word@),
    {
        proof {
            use_type_invariant(&*self);
        }
        let mut k: usize = 0;
        while k < self.words.len()
            invariant
                k <= self.words@.len(),
                forall|m: int| 0 <= m < k ==> self.words@[m]@ != word@,
            decreases self.words@.len() - k,
        {
            if self.words[k] == word {
                assert(holds_word(self.words@, word@));
                assert(self@ =~= self@.insert(word@));
                return false;
            }
            k = k + 1;
        }
        let ghost before = self.words@;
        assert(!holds_word(before, word@));
        let mut words = Vec::new();
        std::mem::swap(&mut words, &mut self.words);
        words.push(word);
        assert forall|i: int, j: int| 0 <= i < j < words@.len() implies words@[i]@ != words@[j]@ by {
            if j == before.len() {
                assert(words@[i] == before[i]);
            } else {
                assert(words@[i] == before[i] && words@[j] == before[j]);
            }
        }
        self.words = words;
        assert forall|w: Seq<char>| holds_word(self.words@, w) == (holds_word(before, w) || w == word@) by {
            if holds_word(self.words@, w) {
                let m = choose|m: int| 0 <= m < self.words@.len() && self.words@[m]@ == w;
                if m < before.len() {
                    assert(self.words@[m] == before[m]);
                }
            }
            if holds_word(before, w) {
                let m = choose|m: int| 0 <= m < before.len() && before[m]@ == w;
                assert(self.words@[m] == before[m]);
            }
            if w == word@ {
                assert(self.words@[before.len() as int]@ == w);
            }
        }
        assert(self@ =~= old(self)@.insert(word@));
        true
    }

    /// Whether `message` holds a blacklisted word once its characters other than
    /// letters, digits and whitespace are dropped and the rest is lower-cased.
    pub fn contains_blacklist_word(&self, message: &str) -> (r: bool)
        ensures
            r == blacklist_hit(self@, message@),
    {
        let chars = chars_of(message);
        let ghost m = message@;
        let mut kept_text = String::new();
        let mut i: usize = 0;
        while i < chars.len()
            invariant
                chars@ == m,
                i <= chars.len(),
                kept_text@ == m.take(i as int).filter(|c: char| kept_char(c)),
            decreases chars.len() - i,
        {
            let c = chars[i];
            proof {
                reveal(Seq::filter);
                assert(m.take(i + 1).drop_last() =~= m.take(i as int));
            }
            if is_alphanumeric(c) || is_whitespace(c) {
                push_char(&mut kept_text, c);
            }
            i = i + 1;
        }
        assert(m.take(chars.len() as int) =~= m);
        let lowered = to_lowercase(kept_text.as_str());
        let n = self.words.len();
        let mut k: usize = 0;
        while k < n
            invariant
                n == self.words@.len(),
                k <= n,
                lowered@ == cleaned(m),
                m == message@,
                forall|j: int| 0 <= j < k ==> !contains_seq(cleaned(m), #[trigger] self.words@[j]@),
            decreases n - k,
        {
            if self.contains_with_garbage(lowered.as_str(), self.words[k].as_str()) {
                assert(holds_word(self.words@, self.words@[k as int]@));
                assert(self@.contains(self.words@[k as int]@));
                return true;
            }
            k = k + 1;
        }
        assert forall|w: Seq<char>| self@.contains(w) implies !contains_seq(cleaned(m), w) by {
            let j = choose|j: int| 0 <= j < self.words@.len() && self.words@[j]@ == w;
            assert(!contains_seq(cleaned(m), self.words@[j]@));
        }
        false
    }

    /// Whether `word` occurs in `message`, trying every start position in turn.
    pub fn contains_with_garbage(&self, message: &str, word: &str) -> (r: bool)
        ensures
            r == contains_seq(message@, word@),
    {
        let chars = chars_of(message);
        let word_chars = chars_of(word);
        contains_chars(&chars, &word_chars)
    }
}

/// Whether the moderation loop blocks `message`: a chat message (`PRIVMSG`) whose text
/// holds a blacklisted word.
pub fn is_blocked(blacklist: &Blacklist, message: &TwitchMessage) -> (r: bool)
    ensures
        r == (message.command.command == MessageTypes::PRIVMSG && blacklist_hit(
            blacklist@,
            message.command.message@,
        )),
{
    if message.command.command != MessageTypes::PRIVMSG {
        return false;
    }
    blacklist.contains_blacklist_word(message.command.message.as_str())
}

/// Characters other than letters, digits and whitespace make no difference to the
/// filter: putting one anywhere into a message leaves the verdict unchanged.
pub proof fn lemma_garbage_ignored(words: Set<Seq<char>>, message: Seq<char>, i: int, c: char)
    requires
        0 <= i <= message.len(),
        !char_is_alphanumeric(c),
        !char_is_whitespace(c),
    ensures
        blacklist_hit(words, message.insert(i, c)) == blacklist_hit(words, message),
{
    let pred = |x: char| kept_char(x);
    let a = message.take(i);
    let b = message.skip(i);
    assert(message.insert(i, c) =~= a + seq![c] + b);
    assert(message =~= a + b);
    Seq::filter_distributes_over_add(a + seq![c], b, pred);
    Seq::filter_distributes_over_add(a, seq![c], pred);
    Seq::filter_distributes_over_add(a, b, pred);
    reveal_with_fuel(Seq::filter, 2);
    assert(seq![c].drop_last() =~= Seq::<char>::empty());
    assert(seq![c].filter(pred) =~= Seq::<char>::empty());
    assert(a.filter(pred) + Seq::<char>::empty() =~= a.filter(pred));
    assert(message.insert(i, c).filter(pred) == message.filter(pred));
}

/// Taking a character that is neither a letter, a digit nor whitespace out of a message
/// leaves the verdict unchanged.
pub proof fn law_garbage_deleted(words: Set<Seq<char>>, message: Seq<char>, i: int)
    requires
        0 <= i < message.len(),
        !char_is_alphanumeric(message[i]),
        !char_is_whitespace(message[i]),
    ensures
        blacklist_hit(words, message.remove(i)) == blacklist_hit(words, message),
{
    lemma_garbage_ignored(words, message.remove(i), i, message[i]);
    assert(message.remove(i).insert(i, message[i]) =~= message);
}

/// Putting an ASCII letter in the other case in place of an ASCII letter of a message
/// leaves the verdict unchanged: the filter does not see the case of ASCII letters.
pub proof fn law_ascii_case_ignored(words: Set<Seq<char>>, message: Seq<char>, i: int, c: char)
    requires
        0 <= i < message.len(),
        is_ascii_upper(message[i]) || is_ascii_lower(message[i]),
        is_ascii_upper(c) || is_ascii_lower(c),
        ascii_lower_char(c) == ascii_lower_char(message[i]),
    ensures
        blacklist_hit(words, message.update(i, c)) == blacklist_hit(words, message),
{
    let pred = |x: char| kept_char(x);
    let x = message[i];
    let a = message.take(i);
    let b = message.skip(i + 1);
    let m2 = message.update(i, c);
    assert(message =~= a + seq![x] + b);
    assert(m2 =~= a + seq![c] + b);
    Seq::filter_distributes_over_add(a + seq![x], b, pred);
    Seq::filter_distributes_over_add(a, seq![x], pred);
    Seq::filter_distributes_over_add(a + seq![c], b, pred);
    Seq::filter_distributes_over_add(a, seq![c], pred);
    reveal_with_fuel(Seq::filter, 2);
    assert(seq![x].drop_last() =~= Seq::<char>::empty());
    assert(seq![c].drop_last() =~= Seq::<char>::empty());
    assert(seq![x].filter(pred) =~= seq![x]);
    assert(seq![c].filter(pred) =~= seq![c]);
    let fa = a.filter(pred);
    let fb = b.filter(pred);
    let f1 = message.filter(pred);
    let f2 = m2.filter(pred);
    assert(f1 == fa + seq![x] + fb);
    assert(f2 == fa + seq![c] + fb);
    assert(fold_ascii_case(f1) =~= fold_ascii_case(f2)) by {
        assert forall|j: int| 0 <= j < f1.len() implies #[trigger] fold_ascii_case(f1)[j]
            == fold_ascii_case(f2)[j] by {
            if j != fa.len() {
                assert(f2[j] == f1[j]);
            }
        }
    }
    law_lowercase_ignores_ascii_case(f1, f2);
    assert(cleaned(message) == cleaned(m2));
}

/// Filtering keeps a text whose characters are all kept.
proof fn lemma_filter_keeps_all(s: Seq<char>)
    requires
        forall|i: int| 0 <= i < s.len() ==> kept_char(#[trigger] s[i]),
    ensures
        s.filter(|c: char| kept_char(c)) == s,
    decreases s.len(),
{
    reveal(Seq::filter);
    if s.len() > 0 {
        let p = s.drop_last();
        assert forall|i: int| 0 <= i < p.len() implies kept_char(#[trigger] p[i]) by {
            assert(p[i] == s[i]);
        }
        lemma_filter_keeps_all(p);
        assert(kept_char(s[s.len() - 1]));
        assert(p.push(s.last()) =~= s);
    }
}

/// The filter drops nothing that is a letter, a digit or whitespace (in the sense of
/// `char::is_alphanumeric` and `char::is_whitespace`): a message made only of such
/// characters is read as the message itself, lower-cased.
pub proof fn law_letters_digits_and_spaces_are_kept(message: Seq<char>)
    requires
        forall|i: int|
            0 <= i < message.len() ==> char_is_alphanumeric(#[trigger] message[i])
                || char_is_whitespace(message[i]),
    ensures
        cleaned(message) == lowercase(message),
{
    assert forall|i: int| 0 <= i < message.len() implies kept_char(#[trigger] message[i]) by {}
    lemma_filter_keeps_all(message);
}

/// A message made only of small ASCII letters and ASCII digits is read exactly as it
/// is, so a blacklist that holds that message as a word blocks it.
pub proof fn law_plain_word_is_blocked(words: Set<Seq<char>>, message: Seq<char>)
    requires
        forall|i: int|
            0 <= i < message.len() ==> is_ascii_lower(#[trigger] message[i]) || ('0' <= message[i]
                && message[i] <= '9'),
    ensures
        cleaned(message) == message,
        words.contains(message) ==> blacklist_hit(words, message),
{
    assert forall|i: int| 0 <= i < message.len() implies kept_char(#[trigger] message[i]) by {}
    lemma_filter_keeps_all(message);
    assert(is_ascii_text(message)) by {
        assert forall|i: int| 0 <= i < message.len() implies is_ascii_char(#[trigger] message[i]) by {}
    }
    assert(fold_ascii_case(message) =~= message);
    assert(cleaned(message) == message);
    if words.contains(message) {
        assert(message.subrange(0, message.len() as int) =~= message);
        assert(occurs_at(cleaned(message), message, 0));
    }
}

/// An empty blacklist blocks nothing.
pub proof fn lemma_empty_blacklist_blocks_nothing(message: Seq<char>)
    ensures
        !blacklist_hit(Set::empty(), message),
{
}

} // verus!
