//! Text as sequences of characters: trimming, splitting into lines, padding.
//!
//! Messages are rendered character by character, so that what a rendering
//! holds can be stated over `Seq<char>`.

use vstd::prelude::*;

verus! {

/// Whether `ch` is white space: one of the characters that Unicode counts
/// as `White_Space`. These are the tab, the line feed and the three controls
/// behind it, the space, the next-line control, the no-break space, and the
/// spaces and separators of the general punctuation and of ideographic text.
pub open spec fn is_white_space(ch: char) -> bool {
    ||| '\u{9}' <= ch && ch <= '\u{d}'
    ||| ch == ' '
    ||| ch == '\u{85}'
    ||| ch == '\u{a0}'
    ||| ch == '\u{1680}'
    ||| '\u{2000}' <= ch && ch <= '\u{200a}'
    ||| ch == '\u{2028}'
    ||| ch == '\u{2029}'
    ||| ch == '\u{202f}'
    ||| ch == '\u{205f}'
    ||| ch == '\u{3000}'
}

/// `char::is_whitespace` tells whether the character is one of those that
/// Unicode counts as `White_Space`.
pub assume_specification[ char::is_whitespace ](ch: char) -> (answer: bool)
    ensures
        answer == is_white_space(ch),
;

/// `String::push` appends one character to the string.
pub assume_specification[ String::push ](text: &mut String, ch: char)
    ensures
        final(text)@ == old(text)@.push(ch),
;

/// The characters of `text`, in order.
pub fn chars_of(text: &str) -> (chars: Vec<char>)
    ensures
        chars@ == text@,
{
    broadcast use vstd::string::group_string_axioms;

    let mut chars: Vec<char> = Vec::new();
    for ch in iter: text.chars()
        invariant
            iter.seq() == text@,
            chars@ == iter.seq().take(iter.index() as int),
    {
        chars.push(ch);
    }
    chars
}

/// The string that holds the given characters, in order.
pub fn string_of(chars: &Vec<char>) -> (text: String)
    ensures
        text@ == chars@,
{
    let mut text = String::new();
    let mut i: usize = 0;
    while i < chars.len()
        invariant
            i <= chars.len(),
            text@ == chars@.take(i as int),
        decreases chars.len() - i,
    {
        text.push(chars[i]);
        i += 1;
    }
    text
}

/// `text` without the white space at its end.
pub open spec fn trim_end(text: Seq<char>) -> Seq<char>
    decreases text.len(),
{
    if text.len() > 0 && is_white_space(text.last()) {
        trim_end(text.drop_last())
    } else {
        text
    }
}

/// `line` without one carriage return at its end, if it has one.
pub open spec fn strip_cr(line: Seq<char>) -> Seq<char> {
    if line.len() > 0 && line.last() == '\r' {
        line.drop_last()
    } else {
        line
    }
}

/// Reads `text` up to its end: the lines that a line feed has closed, and
/// the characters behind the last line feed.
pub open spec fn scan_lines(text: Seq<char>) -> (Seq<Seq<char>>, Seq<char>)
    decreases text.len(),
{
    if text.len() == 0 {
        (Seq::empty(), Seq::empty())
    } else {
        let (closed, open) = scan_lines(text.drop_last());
        if text.last() == '\n' {
            (closed.push(strip_cr(open)), Seq::empty())
        } else {
            (closed, open.push(text.last()))
        }
    }
}

/// The lines of `text`. A line ends at a line feed, or at a carriage return
/// that a line feed follows; neither belongs to the line. What stands behind
/// the last line feed is a line of its own unless it is empty.
pub open spec fn lines_of(text: Seq<char>) -> Seq<Seq<char>> {
    let (closed, open) = scan_lines(text);
    if open.len() > 0 {
        closed.push(open)
    } else {
        closed
    }
}

/// The first line of `text`; empty where `text` has no line.
pub open spec fn first_line(text: Seq<char>) -> Seq<char> {
    if lines_of(text).len() > 0 {
        lines_of(text)[0]
    } else {
        Seq::empty()
    }
}

/// `count` spaces.
pub open spec fn spaces(count: nat) -> Seq<char> {
    Seq::new(count, |i: int| ' ')
}

/// The views of a vector of character vectors.
pub open spec fn views(lines: Seq<Vec<char>>) -> Seq<Seq<char>> {
    Seq::new(lines.len(), |i: int| lines[i]@)
}

/// Appends `chars` to `out`.
pub fn push_all(out: &mut Vec<char>, chars: &Vec<char>)
    ensures
        final(out)@ == old(out)@ + chars@,
{
    let mut i: usize = 0;
    while i < chars.len()
        invariant
            i <= chars.len(),
            out@ == old(out)@ + chars@.take(i as int),
        decreases chars.len() - i,
    {
        out.push(chars[i]);
        i += 1;
    }
}

/// Appends the characters of `text` to `out`.
pub fn push_text(out: &mut Vec<char>, text: &str)
    ensures
        final(out)@ == old(out)@ + text@,
{
    let chars = chars_of(text);
    push_all(out, &chars);
}

/// Appends `count` spaces to `out`.
pub fn push_spaces(out: &mut Vec<char>, count: usize)
    ensures
        final(out)@ == old(out)@ + spaces(count as nat),
{
    let mut i: usize = 0;
    while i < count
        invariant
            i <= count,
            out@ == old(out)@ + spaces(i as nat),
        decreases count - i,
    {
        out.push(' ');
        i += 1;
    }
}

/// Removes the white space at the end of `chars`.
pub fn trim_end_in_place(chars: &mut Vec<char>)
    ensures
        final(chars)@ == trim_end(old(chars)@),
{
    while chars.len() > 0 && chars[chars.len() - 1].is_whitespace()
        invariant
            trim_end(chars@) == trim_end(old(chars)@),
        decreases chars.len(),
    {
        chars.pop();
    }
}

/// Splits `text` into its lines.
pub fn split_lines(text: &Vec<char>) -> (lines: Vec<Vec<char>>)
    ensures
        views(lines@) == lines_of(text@),
{
    let mut closed: Vec<Vec<char>> = Vec::new();
    let mut open: Vec<char> = Vec::new();
    let mut i: usize = 0;
    while i < text.len()
        invariant
            i <= text.len(),
            (views(closed@), open@) == scan_lines(text@.take(i as int)),
        decreases text.len() - i,
    {
        let ch = text[i];
        proof {
            assert(text@.take(i + 1).drop_last() == text@.take(i as int));
        }
        if ch == '\n' {
            let len = open.len();
            if len > 0 && open[len - 1] == '\r' {
                open.pop();
            }
            proof {
                assert(views(closed@.push(open)) == views(closed@).push(open@));
            }
            closed.push(open);
            open = Vec::new();
        } else {
            open.push(ch);
        }
        i += 1;
    }
    proof {
        assert(text@.take(i as int) == text@);
        assert(views(closed@.push(open)) == views(closed@).push(open@));
    }
    if open.len() > 0 {
        closed.push(open);
    }
    closed
}

/// Whether two texts hold the same characters.
pub fn same_text(left: &str, right: &str) -> (same: bool)
    ensures
        same == (left@ == right@),
{
    let first = chars_of(left);
    let second = chars_of(right);
    if first.len() != second.len() {
        return false;
    }
    let mut i: usize = 0;
    while i < first.len()
        invariant
            i <= first.len(),
            first.len() == second.len(),
            first@ == left@,
            second@ == right@,
            first@.take(i as int) == second@.take(i as int),
        decreases first.len() - i,
    {
        if first[i] != second[i] {
            return false;
        }
        proof {
            assert(first@.take(i + 1) == first@.take(i as int).push(first[i as int]));
            assert(second@.take(i + 1) == second@.take(i as int).push(second[i as int]));
        }
        i += 1;
    }
    proof {
        assert(first@.take(i as int) == first@);
        assert(second@.take(i as int) == second@);
    }
    true
}

/// Trimming takes white space from the end and nothing else: what is left
/// is the start of the text, it does not end with white space, and all that
/// was taken is white space.
pub proof fn lemma_trim_end(text: Seq<char>)
    ensures
        trim_end(text).len() <= text.len(),
        trim_end(text) == text.take(trim_end(text).len() as int),
        trim_end(text).len() > 0 ==> !is_white_space(trim_end(text).last()),
        forall|i: int| trim_end(text).len() <= i < text.len() ==> is_white_space(#[trigger] text[i]),
    decreases text.len(),
{
    if text.len() > 0 && is_white_space(text.last()) {
        lemma_trim_end(text.drop_last());
        let kept = trim_end(text).len() as int;
        assert(text.drop_last().take(kept) == text.take(kept));
        assert forall|i: int| kept <= i < text.len() implies is_white_space(#[trigger] text[i]) by {
            if i < text.len() - 1 {
                assert(text[i] == text.drop_last()[i]);
            }
        }
    } else {
        assert(text.take(text.len() as int) == text);
    }
}

/// Whether `line` holds no line feed.
pub open spec fn is_one_line(line: Seq<char>) -> bool {
    forall|i: int| 0 <= i < line.len() ==> line[i] != '\n'
}

/// Whether each of `lines` holds no line feed.
pub open spec fn are_single_lines(lines: Seq<Seq<char>>) -> bool {
    forall|i: int| 0 <= i < lines.len() ==> is_one_line(#[trigger] lines[i])
}

/// No line holds a line feed, neither a closed one nor the open one.
proof fn lemma_scan_holds_no_line_feed(text: Seq<char>)
    ensures
        are_single_lines(scan_lines(text).0),
        is_one_line(scan_lines(text).1),
    decreases text.len(),
{
    if text.len() > 0 {
        lemma_scan_holds_no_line_feed(text.drop_last());
        let (closed, open) = scan_lines(text.drop_last());
        if text.last() == '\n' {
            let line = strip_cr(open);
            assert(is_one_line(line)) by {
                assert forall|i: int| 0 <= i < line.len() implies line[i] != '\n' by {
                    assert(line[i] == open[i]);
                }
            }
            assert forall|i: int| 0 <= i < closed.push(line).len() implies is_one_line(
                #[trigger] closed.push(line)[i],
            ) by {
                if i < closed.len() {
                    assert(closed.push(line)[i] == closed[i]);
                }
            }
        } else {
            let longer = open.push(text.last());
            assert forall|i: int| 0 <= i < longer.len() implies longer[i] != '\n' by {
                if i < open.len() {
                    assert(longer[i] == open[i]);
                }
            }
        }
    }
}

/// The lines of a text hold no line feed.
pub proof fn lemma_lines_hold_no_line_feed(text: Seq<char>)
    ensures
        are_single_lines(lines_of(text)),
{
    lemma_scan_holds_no_line_feed(text);
    let (closed, open) = scan_lines(text);
    if open.len() > 0 {
        assert forall|i: int| 0 <= i < closed.push(open).len() implies is_one_line(
            #[trigger] closed.push(open)[i],
        ) by {
            if i < closed.len() {
                assert(closed.push(open)[i] == closed[i]);
            }
        }
    }
}

} // verus!
