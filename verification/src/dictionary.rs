//! Dictionaries: ordered lists of words, and the filtering of one by a set of
//! letters.

use crate::filter::{word_matches, Filterable, LetterSet};
use crate::lines::{lines_of, single_lines, split_lines};
use vstd::prelude::*;
use vstd::string::StringSliceAdditionalSpecFns;
use vstd::utf8::{decode_utf8, encode_utf8_decode_utf8, valid_utf8};

verus! {

/// Why a dictionary could not be loaded.
#[derive(Clone, Copy, Debug, PartialEq, Eq, Structural)]
pub enum LoadError {
    /// The file could not be opened or read, or what it holds is not text.
    IoError,
    /// The request failed: no connection, a status that is no success, or a
    /// body that could not be read.
    FetchError,
}

/// What a word-list file gives: its lines, where it could be read and holds
/// UTF-8; the error otherwise. `contents` is `None` where the file could not
/// be opened or read.
pub open spec fn file_dictionary(contents: Option<Seq<u8>>) -> Result<Seq<Seq<char>>, LoadError> {
    match contents {
        Some(bytes) => if valid_utf8(bytes) {
            Ok(lines_of(decode_utf8(bytes)))
        } else {
            Err(LoadError::IoError)
        },
        None => Err(LoadError::IoError),
    }
}

/// What a remote word list gives: the lines of the response's body, or the
/// error where the request failed, in which case `body` is `None`.
pub open spec fn remote_dictionary(body: Option<Seq<char>>) -> Result<Seq<Seq<char>>, LoadError> {
    match body {
        Some(text) => Ok(lines_of(text)),
        None => Err(LoadError::FetchError),
    }
}

/// The bytes that reading a file gave, if it gave any.
pub open spec fn bytes_read(contents: Option<&[u8]>) -> Option<Seq<u8>> {
    match contents {
        Some(bytes) => Some(bytes@),
        None => None,
    }
}

/// The text that a request gave, if it gave any.
pub open spec fn text_received(body: Option<&str>) -> Option<Seq<char>> {
    match body {
        Some(text) => Some(text@),
        None => None,
    }
}

/// What loading gave, with the words as sequences of characters.
pub open spec fn words_loaded(loaded: Result<Vec<String>, LoadError>) -> Result<
    Seq<Seq<char>>,
    LoadError,
> {
    match loaded {
        Ok(dict) => Ok(dict.deep_view()),
        Err(error) => Err(error),
    }
}

/// [`std::str::from_utf8`] succeeds exactly on well-formed UTF-8, and the
/// string slice it then returns is made of the very bytes it was given.
#[verifier::external_body]
fn decode(bytes: &[u8]) -> (text: Option<&str>)
    ensures
        text is Some <==> valid_utf8(bytes@),
        text matches Some(decoded) ==> decoded.spec_bytes() == bytes@,
{
    std::str::from_utf8(bytes).ok()
}

/// Builds the dictionary of a word-list file from what reading the file gave:
/// its bytes, or `None` where it could not be opened or read.
///
/// Each line of the file is one word, in the file's order. Nothing is sorted,
/// trimmed or removed. A file that is not UTF-8 throughout gives no words at
/// all, only the error.
pub fn make_dictionary(contents: Option<&[u8]>) -> (loaded: Result<Vec<String>, LoadError>)
    ensures
        words_loaded(loaded) == file_dictionary(bytes_read(contents)),
        loaded matches Ok(dict) ==> single_lines(dict.deep_view()),
{
    match contents {
        None => Err(LoadError::IoError),
        Some(bytes) => match decode(bytes) {
            None => Err(LoadError::IoError),
            Some(text) => {
                proof {
                    encode_utf8_decode_utf8(text@);
                }
                Ok(split_lines(text))
            },
        },
    }
}

/// Builds the dictionary of a remote word list from what the request gave:
/// the body of the response, or `None` where the request failed.
///
/// Each line of the body is one word, in the body's order.
pub fn make_dictionary_url(body: Option<&str>) -> (loaded: Result<Vec<String>, LoadError>)
    ensures
        words_loaded(loaded) == remote_dictionary(text_received(body)),
        loaded matches Ok(dict) ==> single_lines(dict.deep_view()),
{
    match body {
        None => Err(LoadError::FetchError),
        Some(text) => Ok(split_lines(text)),
    }
}

/// The words of `dict` that match `allowed`, in the order of `dict`.
///
/// A word that occurs several times in `dict` is kept as many times.
pub open spec fn kept_words(dict: Seq<Seq<char>>, allowed: Set<char>) -> Seq<Seq<char>> {
    dict.filter(|word: Seq<char>| word_matches(word, allowed))
}

/// `part` is found inside `whole` at the positions `places`, which increase.
pub open spec fn found_in_order(part: Seq<Seq<char>>, whole: Seq<Seq<char>>, places: Seq<int>) -> bool {
    &&& places.len() == part.len()
    &&& forall|k: int|
        0 <= k < places.len() ==> 0 <= #[trigger] places[k] < whole.len() && part[k]
            == whole[places[k]]
    &&& forall|j: int, k: int| 0 <= j < k < places.len() ==> places[j] < places[k]
}

/// Returns the words of `dict` whose every character is in `filter`.
///
/// The order of `dict` is kept, and so are repeated words.
pub fn get_matches(dict: &Vec<String>, filter: &LetterSet) -> (matches: Vec<String>)
    ensures
        matches.deep_view() == kept_words(dict.deep_view(), filter@),
        matches.len() <= dict.len(),
        forall|i: int| 0 <= i < matches.len() ==> word_matches(#[trigger] matches[i]@, filter@),
{
    let mut matches: Vec<String> = Vec::new();
    let ghost keep = |word: Seq<char>| word_matches(word, filter@);
    for word in it: dict.iter()
        invariant
            it.seq().len() == dict.len(),
            forall|i: int| 0 <= i < dict.len() ==> *it.seq()[i] == dict[i],
            keep == |word: Seq<char>| word_matches(word, filter@),
            matches.deep_view() == dict.deep_view().take(it.index()).filter(keep),
            matches.len() <= it.index(),
    {
        let ghost seen = dict.deep_view().take(it.index());
        proof {
            seen.lemma_filter_push(word@, keep);
            assert(dict.deep_view().take(it.index() + 1) == seen.push(word@));
        }
        if word.matches_filter(filter) {
            let ghost before = matches.deep_view();
            matches.push(word.clone());
            assert(matches.deep_view() == before.push(word@));
        }
    }
    proof {
        let all = dict.deep_view();
        assert(all.take(dict.len() as int) == all);
        assert forall|i: int| 0 <= i < matches.len() implies word_matches(
            #[trigger] matches[i]@,
            filter@,
        ) by {
            all.lemma_filter_pred(keep, i);
            assert(matches.deep_view()[i] == matches[i]@);
        }
    }
    matches
}

/// Filtering never makes a dictionary longer, and every word it keeps
/// matches.
pub proof fn lemma_kept_words_match(dict: Seq<Seq<char>>, allowed: Set<char>)
    ensures
        kept_words(dict, allowed).len() <= dict.len(),
        forall|k: int|
            0 <= k < kept_words(dict, allowed).len() ==> word_matches(
                #[trigger] kept_words(dict, allowed)[k],
                allowed,
            ),
{
    let keep = |word: Seq<char>| word_matches(word, allowed);
    dict.lemma_filter_len(keep);
    assert forall|k: int| 0 <= k < kept_words(dict, allowed).len() implies word_matches(
        #[trigger] kept_words(dict, allowed)[k],
        allowed,
    ) by {
        dict.lemma_filter_pred(keep, k);
    }
}

/// The kept words are a subsequence of the dictionary: they stand in it at
/// increasing positions, and these are exactly the positions of the matching
/// words. So the order is kept, and a matching word that occurs several times
/// is kept each time.
pub proof fn lemma_kept_words_are_subsequence(dict: Seq<Seq<char>>, allowed: Set<char>) -> (places:
    Seq<int>)
    ensures
        found_in_order(kept_words(dict, allowed), dict, places),
        forall|i: int|
            0 <= i < dict.len() ==> (places.contains(i) <==> word_matches(#[trigger] dict[i], allowed)),
    decreases dict.len(),
{
    let keep = |word: Seq<char>| word_matches(word, allowed);
    if dict.len() == 0 {
        reveal(Seq::filter);
        Seq::<int>::empty()
    } else {
        let rest = dict.drop_last();
        let last = dict.last();
        let rest_places = lemma_kept_words_are_subsequence(rest, allowed);
        rest.lemma_filter_push(last, keep);
        assert(rest.push(last) == dict);
        let places = if word_matches(last, allowed) {
            rest_places.push(rest.len() as int)
        } else {
            rest_places
        };
        assert forall|i: int| 0 <= i < dict.len() implies (places.contains(i) <==> word_matches(
            #[trigger] dict[i],
            allowed,
        )) by {
            if i < rest.len() {
                assert(dict[i] == rest[i]);
                if rest_places.contains(i) {
                    let k = choose|k: int| 0 <= k < rest_places.len() && rest_places[k] == i;
                    assert(places[k] == i);
                }
                if places.contains(i) {
                    let k = choose|k: int| 0 <= k < places.len() && places[k] == i;
                    assert(rest_places[k] == i);
                }
            } else {
                if word_matches(last, allowed) {
                    assert(places[rest_places.len() as int] == i);
                }
                if places.contains(i) {
                    let k = choose|k: int| 0 <= k < places.len() && places[k] == i;
                    if k < rest_places.len() {
                        assert(rest_places[k] == i);
                    }
                }
            }
        }
        places
    }
}

/// Filtering a second time with the same letters changes nothing.
pub proof fn lemma_kept_words_idempotent(dict: Seq<Seq<char>>, allowed: Set<char>)
    ensures
        kept_words(kept_words(dict, allowed), allowed) == kept_words(dict, allowed),
    decreases dict.len(),
{
    let keep = |word: Seq<char>| word_matches(word, allowed);
    if dict.len() == 0 {
        reveal(Seq::filter);
    } else {
        let rest = dict.drop_last();
        let last = dict.last();
        lemma_kept_words_idempotent(rest, allowed);
        assert(rest.push(last) == dict);
        rest.lemma_filter_push(last, keep);
        rest.filter(keep).lemma_filter_push(last, keep);
    }
}

} // verus!
