//! Text as the buffer draws it: a run of characters cut into lines.

use vstd::prelude::*;

verus! {

/// How many characters stand between position `from` and the next line
/// feed, or the end of the text.
pub open spec fn line_length(text: Seq<char>, from: int) -> nat
    decreases text.len() - from,
{
    if from < 0 || from >= text.len() || text[from] == '\n' {
        0
    } else {
        1 + line_length(text, from + 1)
    }
}

/// The line that starts at position `from`: it runs up to the next line
/// feed, without it, and without a carriage return just before it.
pub open spec fn line_from(text: Seq<char>, from: int) -> Seq<char> {
    let end = from + line_length(text, from);
    if end < text.len() && from < end && text[end - 1] == '\r' {
        text.subrange(from, end - 1)
    } else {
        text.subrange(from, end)
    }
}

/// The lines of the text from position `from` on. A line feed ends a
/// line; what follows the last line feed is a line if it is not empty.
pub open spec fn lines_from(text: Seq<char>, from: int) -> Seq<Seq<char>>
    decreases text.len() - from,
{
    let next = from + line_length(text, from) + 1;
    if from < 0 || from >= text.len() {
        Seq::empty()
    } else {
        seq![line_from(text, from)] + lines_from(
            text,
            if next < text.len() {
                next
            } else {
                text.len() as int
            },
        )
    }
}

/// The lines of a text.
pub open spec fn lines_of(text: Seq<char>) -> Seq<Seq<char>> {
    lines_from(text, 0)
}

/// The characters of some lines.
pub open spec fn lines_view(lines: Seq<Vec<char>>) -> Seq<Seq<char>> {
    Seq::new(lines.len(), |i: int| lines[i]@)
}

/// The characters of `text`.
pub fn chars_of(text: &str) -> (chars: Vec<char>)
    ensures
        chars@ == text@,
{
    let count: usize = text.unicode_len();
    let mut chars: Vec<char> = Vec::new();
    let mut i: usize = 0;
    while i < count
        invariant
            count == text@.len(),
            i <= count,
            chars@ == text@.subrange(0, i as int),
        decreases count - i,
    {
        chars.push(text.get_char(i));
        assert(chars@ =~= text@.subrange(0, i + 1));
        i += 1;
    }
    assert(chars@ =~= text@);
    chars
}

/// The lines of `text`, each as its characters.
pub fn split_lines(text: &str) -> (lines: Vec<Vec<char>>)
    ensures
        lines_view(lines@) == lines_of(text@),
{
    let chars = chars_of(text);
    let mut lines: Vec<Vec<char>> = Vec::new();
    let mut from: usize = 0;
    while from < chars.len()
        invariant
            chars@ == text@,
            from <= chars.len(),
            lines_of(text@) == lines_view(lines@) + lines_from(text@, from as int),
        decreases chars.len() - from,
    {
        let mut end: usize = from;
        while end < chars.len() && chars[end] != '\n'
            invariant
                chars@ == text@,
                from <= end <= chars.len(),
                line_length(text@, from as int) == (end - from) + line_length(text@, end as int),
            decreases chars.len() - end,
        {
            end += 1;
        }
        assert(line_length(text@, end as int) == 0);
        let stop: usize = if end < chars.len() && from < end && chars[end - 1] == '\r' {
            end - 1
        } else {
            end
        };
        let mut line: Vec<char> = Vec::new();
        let mut k: usize = from;
        while k < stop
            invariant
                chars@ == text@,
                from <= k <= stop <= chars.len(),
                line@ == text@.subrange(from as int, k as int),
            decreases stop - k,
        {
            line.push(chars[k]);
            assert(line@ =~= text@.subrange(from as int, k + 1));
            k += 1;
        }
        assert(line@ == line_from(text@, from as int));
        let ghost before = lines@;
        lines.push(line);
        assert(lines_view(lines@) =~= lines_view(before) + seq![line_from(text@, from as int)]);
        let next: usize = if end < chars.len() {
            end + 1
        } else {
            end
        };
        assert(lines_view(lines@) + lines_from(text@, next as int) =~= lines_view(before) + (seq![
            line_from(text@, from as int),
        ] + lines_from(text@, next as int)));
        from = next;
    }
    assert(lines_from(text@, from as int) =~= Seq::<Seq<char>>::empty());
    assert(lines_view(lines@) + Seq::<Seq<char>>::empty() =~= lines_view(lines@));
    lines
}

} // verus!
