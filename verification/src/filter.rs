//! The set of allowed letters and the test of one word against it.

use std::collections::HashSet;
use vstd::prelude::*;
use vstd::utf8::is_scalar;

verus! {

broadcast use {
    vstd::std_specs::hash::group_hash_axioms,
    vstd::utf8::char_is_scalar,
    vstd::utf8::char_u32_cast,
};

/// A word matches when each of its characters is an allowed letter.
///
/// Characters are compared as Unicode scalar values: there is no case folding
/// and no normalisation. The empty word matches every set.
pub open spec fn word_matches(word: Seq<char>, allowed: Set<char>) -> bool {
    forall|i: int| 0 <= i < word.len() ==> allowed.contains(#[trigger] word[i])
}

/// The character that a stored code stands for.
spec fn letter_of(code: u32) -> char {
    code as char
}

/// A set of characters: membership only, no multiplicity and no order.
///
/// It is built once by [`make_filter`] and never changes afterwards.
pub struct LetterSet {
    codes: HashSet<u32>,
}

impl View for LetterSet {
    type V = Set<char>;

    closed spec fn view(&self) -> Set<char> {
        self.codes@.map(|code: u32| letter_of(code))
    }
}

impl LetterSet {
    /// Only scalar values of characters are stored, so that a character and
    /// its code stand for each other.
    #[verifier::type_invariant]
    spec fn only_letters(self) -> bool {
        &&& self.codes@.finite()
        &&& forall|code: u32| self.codes@.contains(code) ==> is_scalar(code)
    }

    /// Whether `letter` is a member of the set.
    pub fn contains(&self, letter: char) -> (found: bool)
        ensures
            found == self@.contains(letter),
    {
        proof {
            use_type_invariant(self);
            lemma_member_by_code(self.codes@, letter);
        }
        let code: u32 = letter as u32;
        self.codes.contains(&code)
    }

    /// The number of distinct letters in the set.
    pub fn len(&self) -> (count: usize)
        ensures
            self@.finite(),
            count == self@.len(),
    {
        proof {
            use_type_invariant(self);
            lemma_as_many_letters_as_codes(self.codes@);
        }
        self.codes.len()
    }
}

/// The code of a letter is a scalar value, and stands for that letter.
proof fn lemma_code_of_letter(letter: char)
    ensures
        is_scalar(letter as u32),
        letter_of(letter as u32) == letter,
{
}

/// A letter is the image of a stored code exactly when its own code is stored.
proof fn lemma_member_by_code(codes: Set<u32>, letter: char)
    requires
        forall|code: u32| codes.contains(code) ==> is_scalar(code),
    ensures
        codes.map(|code: u32| letter_of(code)).contains(letter) <==> codes.contains(letter as u32),
{
    let letters = codes.map(|code: u32| letter_of(code));
    if codes.contains(letter as u32) {
        assert(letter_of(letter as u32) == letter);
        assert(letters.contains(letter));
    }
    if letters.contains(letter) {
        let code = choose|code: u32| codes.contains(code) && letter == letter_of(code);
        assert(is_scalar(code));
        assert(letter as u32 == code);
    }
}

/// Distinct codes stand for distinct letters, so both sets have one size.
proof fn lemma_as_many_letters_as_codes(codes: Set<u32>)
    requires
        codes.finite(),
        forall|code: u32| codes.contains(code) ==> is_scalar(code),
    ensures
        codes.map(|code: u32| letter_of(code)).finite(),
        codes.map(|code: u32| letter_of(code)).len() == codes.len(),
{
    let to_letter = |code: u32| letter_of(code);
    assert(vstd::relations::injective_on(to_letter, codes)) by {
        assert forall|a: u32, b: u32|
            codes.contains(a) && codes.contains(b) && #[trigger] to_letter(a) == #[trigger] to_letter(b)
            implies a == b by {
            assert(is_scalar(a) && is_scalar(b));
            assert(letter_of(a) as u32 == a);
            assert(letter_of(b) as u32 == b);
        }
    }
    vstd::set_lib::lemma_map_size(codes, codes.map(to_letter), to_letter);
}

/// Builds the set of allowed letters from a string of them.
///
/// Repeated letters collapse into one member. Nothing is normalised: `'A'` and
/// `'a'` are different letters. The empty string gives the empty set.
pub fn make_filter(letters: &str) -> (filter: LetterSet)
    ensures
        filter@ == letters@.to_set(),
        filter@.finite(),
        filter@.len() <= letters@.len(),
{
    let mut codes: HashSet<u32> = HashSet::new();
    for letter in it: letters.chars()
        invariant
            it.seq() == letters@,
            codes@.finite(),
            forall|code: u32| codes@.contains(code) ==> is_scalar(code),
            codes@.map(|code: u32| letter_of(code)) == letters@.take(it.index()).to_set(),
    {
        proof {
            let seen = letters@.take(it.index());
            let to_letter = |code: u32| letter_of(code);
            lemma_code_of_letter(letter);
            codes@.lemma_set_map_insert_commute(letter as u32, to_letter);
            Seq::lemma_to_set_insert_commutes(seen, letter);
            assert(letters@.take(it.index() + 1) == seen + seq![letter]);
        }
        codes.insert(letter as u32);
    }
    proof {
        assert(letters@.take(letters@.len() as int) == letters@);
        letters@.lemma_cardinality_of_set();
        vstd::seq_lib::seq_to_set_is_finite(letters@);
    }
    LetterSet { codes }
}

/// Anything that reads as a word and can be tested against a [`LetterSet`].
pub trait Filterable {
    /// The characters of the word, in order.
    spec fn letters(&self) -> Seq<char>;

    /// Returns true if every character of the word is in `filter`.
    fn matches_filter(&self, filter: &LetterSet) -> (matched: bool)
        ensures
            matched == word_matches(self.letters(), filter@),
    ;
}

impl Filterable for str {
    open spec fn letters(&self) -> Seq<char> {
        self@
    }

    fn matches_filter(&self, filter: &LetterSet) -> (matched: bool) {
        let mut matched = true;
        for letter in it: self.chars()
            invariant
                it.seq() == self@,
                matched == word_matches(self@.take(it.index()), filter@),
        {
            proof {
                lemma_matches_one_more(self@.take(it.index()), letter, filter@);
                assert(self@.take(it.index() + 1) == self@.take(it.index()).push(letter));
            }
            matched = matched && filter.contains(letter);
        }
        proof {
            assert(self@.take(self@.len() as int) == self@);
        }
        matched
    }
}

impl Filterable for String {
    open spec fn letters(&self) -> Seq<char> {
        self@
    }

    fn matches_filter(&self, filter: &LetterSet) -> (matched: bool) {
        self.as_str().matches_filter(filter)
    }
}

/// A word with one more character matches when the word did and the new
/// character is allowed.
proof fn lemma_matches_one_more(word: Seq<char>, letter: char, allowed: Set<char>)
    ensures
        word_matches(word.push(letter), allowed) <==> word_matches(word, allowed)
            && allowed.contains(letter),
{
    let longer = word.push(letter);
    if word_matches(longer, allowed) {
        assert(longer[word.len() as int] == letter);
        assert forall|i: int| 0 <= i < word.len() implies allowed.contains(#[trigger] word[i]) by {
            assert(longer[i] == word[i]);
        }
    }
}

/// The empty word matches every set of letters, the empty set too.
pub proof fn lemma_empty_word_matches(allowed: Set<char>)
    ensures
        word_matches(Seq::<char>::empty(), allowed),
{
}

/// No word but the empty one matches the empty set of letters.
pub proof fn lemma_empty_set_matches_only_empty_word(word: Seq<char>)
    ensures
        word_matches(word, Set::<char>::empty()) <==> word.len() == 0,
{
    if word.len() > 0 {
        assert(!Set::<char>::empty().contains(word[0]));
    }
}

} // verus!
