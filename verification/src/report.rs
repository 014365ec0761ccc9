//! The lines that a run prints: the words found and their number, or the
//! rules that the command line broke.

use crate::config::{ConfigError, Settings};
use vstd::prelude::*;
use vstd::string::StringExecFns;

verus! {

/// The character that stands for a digit below ten.
pub open spec fn digit_of(value: nat) -> char {
    if value == 0 {
        '0'
    } else if value == 1 {
        '1'
    } else if value == 2 {
        '2'
    } else if value == 3 {
        '3'
    } else if value == 4 {
        '4'
    } else if value == 5 {
        '5'
    } else if value == 6 {
        '6'
    } else if value == 7 {
        '7'
    } else if value == 8 {
        '8'
    } else {
        '9'
    }
}

/// A number in decimal digits, without sign and without leading zeros.
pub open spec fn decimal_of(number: nat) -> Seq<char>
    decreases number,
{
    if number < 10 {
        seq![digit_of(number)]
    } else {
        decimal_of(number / 10).push(digit_of(number % 10))
    }
}

/// The line that gives the number of words found.
pub open spec fn count_line_of(count: nat) -> Seq<char> {
    "Word amount: "@ + decimal_of(count)
}

/// What a run prints for the words it found: the words, one to a line, where
/// they are shown, then their number where that is shown.
pub open spec fn report_of(found: Seq<Seq<char>>, settings: Settings) -> Seq<Seq<char>> {
    let words = if settings.words_shown() {
        found
    } else {
        Seq::empty()
    };
    let count = if settings.count_shown() {
        seq![count_line_of(found.len())]
    } else {
        Seq::empty()
    };
    words + count
}

/// The line above a list of errors, which says how many there are.
pub open spec fn error_heading_of(count: nat) -> Seq<char> {
    if count == 1 {
        "There is 1 error:"@
    } else {
        "There are "@ + decimal_of(count) + " errors:"@
    }
}

/// The line that lists one error.
pub open spec fn error_line_of(error: ConfigError) -> Seq<char> {
    "- "@ + error.text()
}

/// What is printed for a command line that breaks rules: the heading, then
/// one line for each error.
pub open spec fn error_report_of(errors: Seq<ConfigError>) -> Seq<Seq<char>> {
    seq![error_heading_of(errors.len())] + errors.map_values(|error: ConfigError| error_line_of(error))
}

fn digit(value: usize) -> (letter: char)
    requires
        value < 10,
    ensures
        letter == digit_of(value as nat),
{
    if value == 0 {
        '0'
    } else if value == 1 {
        '1'
    } else if value == 2 {
        '2'
    } else if value == 3 {
        '3'
    } else if value == 4 {
        '4'
    } else if value == 5 {
        '5'
    } else if value == 6 {
        '6'
    } else if value == 7 {
        '7'
    } else if value == 8 {
        '8'
    } else {
        '9'
    }
}

/// Appends `number` in decimal digits to `text`.
pub fn push_decimal(text: &mut String, number: usize)
    ensures
        final(text)@ == old(text)@ + decimal_of(number as nat),
    decreases number,
{
    if number >= 10 {
        push_decimal(text, number / 10);
    }
    text.push(digit(number % 10));
    proof {
        let before = old(text)@;
        if number >= 10 {
            assert((before + decimal_of((number / 10) as nat)).push(digit_of((number % 10) as nat))
                == before + decimal_of(number as nat));
        } else {
            assert(before.push(digit_of(number as nat)) == before + decimal_of(number as nat));
        }
    }
}

/// The line that gives the number of words found.
pub fn count_line(count: usize) -> (line: String)
    ensures
        line@ == count_line_of(count as nat),
{
    let mut line = String::from_str("Word amount: ");
    push_decimal(&mut line, count);
    line
}

/// The lines to print for the words found, under `settings`.
pub fn report_lines(found: &Vec<String>, settings: &Settings) -> (lines: Vec<String>)
    ensures
        lines.deep_view() == report_of(found.deep_view(), *settings),
{
    let mut lines: Vec<String> = Vec::new();
    if settings.shows_words() {
        for word in it: found.iter()
            invariant
                it.seq().len() == found.len(),
                forall|i: int| 0 <= i < found.len() ==> *it.seq()[i] == found[i],
                lines.deep_view() == found.deep_view().take(it.index()),
        {
            let ghost before = lines.deep_view();
            lines.push(word.clone());
            assert(lines.deep_view() == before.push(word@));
            assert(found.deep_view().take(it.index() + 1) == before.push(word@));
        }
        assert(found.deep_view().take(found.len() as int) == found.deep_view());
    }
    assert(lines.deep_view() == if settings.words_shown() {
        found.deep_view()
    } else {
        Seq::empty()
    });
    if settings.shows_count() {
        let ghost before = lines.deep_view();
        lines.push(count_line(found.len()));
        assert(lines.deep_view() == before + seq![count_line_of(found.len() as nat)]);
    } else {
        assert(lines.deep_view() + Seq::<Seq<char>>::empty() == lines.deep_view());
    }
    lines
}

/// The line above a list of `count` errors.
pub fn error_heading(count: usize) -> (line: String)
    ensures
        line@ == error_heading_of(count as nat),
{
    if count == 1 {
        String::from_str("There is 1 error:")
    } else {
        let mut line = String::from_str("There are ");
        push_decimal(&mut line, count);
        line.append(" errors:");
        line
    }
}

/// The lines to print for a command line that breaks the rules `errors`.
pub fn error_lines(errors: &Vec<ConfigError>) -> (lines: Vec<String>)
    ensures
        lines.deep_view() == error_report_of(errors@),
{
    let mut lines: Vec<String> = Vec::new();
    lines.push(error_heading(errors.len()));
    let ghost listed = |error: ConfigError| error_line_of(error);
    assert(lines.deep_view() == seq![error_heading_of(errors.len() as nat)]);
    for error in it: errors.iter()
        invariant
            it.seq().len() == errors.len(),
            forall|i: int| 0 <= i < errors.len() ==> *it.seq()[i] == errors[i],
            listed == |error: ConfigError| error_line_of(error),
            lines.deep_view() == seq![error_heading_of(errors.len() as nat)] + errors@.take(
                it.index(),
            ).map_values(listed),
    {
        let ghost before = lines.deep_view();
        let mut line = String::from_str("- ");
        line.append(error.message());
        lines.push(line);
        assert(lines.deep_view() == before.push(error_line_of(*error)));
        assert(errors@.take(it.index() + 1).map_values(listed) == errors@.take(
            it.index(),
        ).map_values(listed).push(error_line_of(*error)));
    }
    assert(errors@.take(errors.len() as int) == errors@);
    lines
}

} // verus!
