//! Newline-delimited text: what its lines are, and how to split it.

use vstd::prelude::*;

verus! {

/// [`String::push`] appends the one character to the end of the string and
/// leaves the characters before it as they were.
pub assume_specification[ String::push ](text: &mut String, letter: char)
    ensures
        final(text)@ == old(text)@.push(letter),
;

/// A line without the carriage return that ends it, if one does.
///
/// Only one is taken away: a line of `"a\r\r"` becomes `"a\r"`.
pub open spec fn without_carriage_return(line: Seq<char>) -> Seq<char> {
    if line.len() > 0 && line.last() == '\r' {
        line.drop_last()
    } else {
        line
    }
}

/// How many characters stand before the first line feed of `text`: all of
/// them where it has none.
pub open spec fn first_line_len(text: Seq<char>) -> nat
    decreases text.len(),
{
    if text.len() == 0 || text[0] == '\n' {
        0
    } else {
        1 + first_line_len(text.drop_first())
    }
}

/// The lines of `text`, in order.
///
/// A line ends at a line feed, or at a carriage return directly followed by
/// one; neither is part of the line. What follows the last line feed is a
/// line of its own if it is not empty, and keeps a carriage return at its
/// end. So a line feed at the very end of the text adds no empty line, while
/// an empty line in the text, also as the last one, is kept.
pub open spec fn lines_of(text: Seq<char>) -> Seq<Seq<char>>
    decreases text.len(),
{
    let first = first_line_len(text);
    if text.len() == 0 {
        Seq::empty()
    } else if first >= text.len() {
        seq![text]
    } else {
        seq![without_carriage_return(text.take(first as int))] + lines_of(
            text.skip(first as int + 1),
        )
    }
}

/// Each of `lines` is a single line: it holds no line feed.
pub open spec fn single_lines(lines: Seq<Seq<char>>) -> bool {
    forall|k: int, j: int|
        0 <= k < lines.len() && 0 <= j < lines[k].len() ==> #[trigger] lines[k][j] != '\n'
}

/// Where the first line feed stands: no line feed before position `at`, and
/// one at `at` or the end of the text there.
proof fn lemma_first_line_len(text: Seq<char>, at: int)
    requires
        0 <= at <= text.len(),
        forall|j: int| 0 <= j < at ==> text[j] != '\n',
        at == text.len() || text[at] == '\n',
    ensures
        first_line_len(text) == at,
    decreases text.len(),
{
    if at > 0 {
        let rest = text.drop_first();
        assert forall|j: int| 0 <= j < at - 1 implies rest[j] != '\n' by {
            assert(rest[j] == text[j + 1]);
        }
        lemma_first_line_len(rest, at - 1);
    }
}

/// The first line feed of a text is in it, and no line feed stands before it.
pub proof fn lemma_first_line_has_no_line_feed(text: Seq<char>)
    ensures
        first_line_len(text) <= text.len(),
        first_line_len(text) < text.len() ==> text[first_line_len(text) as int] == '\n',
        forall|j: int| 0 <= j < first_line_len(text) ==> text[j] != '\n',
    decreases text.len(),
{
    if text.len() > 0 && text[0] != '\n' {
        let rest = text.drop_first();
        lemma_first_line_has_no_line_feed(rest);
        assert forall|j: int| 0 <= j < first_line_len(text) implies text[j] != '\n' by {
            if j > 0 {
                assert(text[j] == rest[j - 1]);
            }
        }
    }
}

/// No line of a text holds a line feed.
pub proof fn lemma_lines_hold_no_line_feed(text: Seq<char>)
    ensures
        single_lines(lines_of(text)),
    decreases text.len(),
{
    lemma_first_line_has_no_line_feed(text);
    let first = first_line_len(text) as int;
    if text.len() > 0 && first < text.len() {
        let rest = text.skip(first + 1);
        lemma_lines_hold_no_line_feed(rest);
        let head = without_carriage_return(text.take(first));
        let lines = lines_of(text);
        assert forall|k: int, j: int|
            0 <= k < lines.len() && 0 <= j < lines[k].len() implies #[trigger] lines[k][j]
            != '\n' by {
            if k == 0 {
                assert(lines[0] == head);
                assert(head[j] == text[j]);
            } else {
                assert(lines[k] == lines_of(rest)[k - 1]);
            }
        }
    }
}

/// The lines of a text that holds no line feed: the text itself, or none
/// where it is empty.
proof fn lemma_lines_of_last_line(text: Seq<char>)
    requires
        forall|j: int| 0 <= j < text.len() ==> text[j] != '\n',
    ensures
        lines_of(text) == if text.len() == 0 {
            Seq::<Seq<char>>::empty()
        } else {
            seq![text]
        },
{
    lemma_first_line_len(text, text.len() as int);
}

/// The lines of a text from `start` on, where the next line feed stands at
/// `at`: the line between the two, then the lines of what follows `at`.
proof fn lemma_lines_of_next_line(text: Seq<char>, start: int, at: int)
    requires
        0 <= start <= at < text.len(),
        forall|j: int| start <= j < at ==> text[j] != '\n',
        text[at] == '\n',
    ensures
        lines_of(text.skip(start)) == seq![without_carriage_return(text.subrange(start, at))]
            + lines_of(text.skip(at + 1)),
{
    let tail = text.skip(start);
    lemma_first_line_len(tail, at - start);
    assert(tail.take(at - start) == text.subrange(start, at));
    assert(tail.skip(at - start + 1) == text.skip(at + 1));
}

/// Splits `text` into its lines.
pub fn split_lines(text: &str) -> (lines: Vec<String>)
    ensures
        lines.deep_view() == lines_of(text@),
        single_lines(lines.deep_view()),
{
    let mut lines: Vec<String> = Vec::new();
    let mut line = String::new();
    // A carriage return that was read and is not in `line` yet: it belongs to
    // the line only if no line feed comes next.
    let mut held_back = false;
    let ghost mut start: int = 0;
    proof {
        assert(text@.skip(0) == text@);
        assert(lines.deep_view() + lines_of(text@) == lines_of(text@));
    }
    for letter in it: text.chars()
        invariant
            it.seq() == text@,
            0 <= start <= it.index() <= text@.len(),
            forall|j: int| start <= j < it.index() ==> text@[j] != '\n',
            lines_of(text@) == lines.deep_view() + lines_of(text@.skip(start)),
            text@.subrange(start, it.index()) == if held_back {
                line@.push('\r')
            } else {
                line@
            },
            !held_back ==> line@.len() == 0 || line@.last() != '\r',
    {
        let ghost at = it.index();
        let ghost read = text@.subrange(start, at);
        assert(text@.subrange(start, at + 1) == read.push(letter));
        if letter == '\n' {
            proof {
                lemma_lines_of_next_line(text@, start, at);
                assert(without_carriage_return(read) == line@) by {
                    if held_back {
                        assert(line@.push('\r').drop_last() == line@);
                    }
                }
                start = at + 1;
                assert(text@.subrange(start, at + 1) == Seq::<char>::empty());
            }
            let ghost before = lines.deep_view();
            lines.push(line);
            assert(lines.deep_view() == before.push(without_carriage_return(read)));
            line = String::new();
            held_back = false;
        } else {
            if held_back {
                line.push('\r');
            }
            if letter == '\r' {
                held_back = true;
            } else {
                line.push(letter);
                held_back = false;
            }
        }
    }
    if held_back {
        line.push('\r');
    }
    proof {
        assert(text@.subrange(start, text@.len() as int) == text@.skip(start));
        lemma_lines_of_last_line(text@.skip(start));
    }
    if !line.as_str().is_empty() {
        let ghost before = lines.deep_view();
        lines.push(line);
        assert(lines.deep_view() == before.push(text@.skip(start)));
    }
    proof {
        assert(lines.deep_view() == lines_of(text@));
        lemma_lines_hold_no_line_feed(text@);
    }
    lines
}

} // verus!
