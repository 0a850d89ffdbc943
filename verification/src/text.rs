//! Character sequences and the lines they are made of.

use vstd::prelude::*;

verus! {

/// `String::push` appends one character and changes nothing else.
pub assume_specification[ String::push ](s: &mut String, ch: char)
    ensures
        final(s)@ == old(s)@.push(ch),
;

/// Whether `pattern` stands in `text` at index `at`.
pub open spec fn occurs_at(text: Seq<char>, pattern: Seq<char>, at: int) -> bool {
    &&& 0 <= at
    &&& at + pattern.len() <= text.len()
    &&& text.subrange(at, at + pattern.len()) == pattern
}

/// The index of the first line feed from `from` on, or the length of `text`
/// where none follows.
pub open spec fn line_end(text: Seq<char>, from: int) -> int
    decreases text.len() - from,
{
    if from < 0 || from >= text.len() {
        text.len() as int
    } else if text[from] == '\n' {
        from
    } else {
        line_end(text, from + 1)
    }
}

/// The length of the first line of `text`, its line feed counted.
pub open spec fn first_line_len(text: Seq<char>) -> int {
    let end = line_end(text, 0);
    if end < text.len() {
        end + 1
    } else {
        end
    }
}

/// The first line of `text`, with its line feed where it has one.
pub open spec fn first_line(text: Seq<char>) -> Seq<char> {
    text.take(first_line_len(text))
}

/// What follows the first line of `text`.
pub open spec fn later_lines(text: Seq<char>) -> Seq<char> {
    text.skip(first_line_len(text))
}

/// The length of the ending of `line`: 2 for a carriage return and a line
/// feed, 1 for a line feed alone, 0 where the line ends without a line feed.
pub open spec fn ending_len(line: Seq<char>) -> int {
    if line.len() >= 2 && line[line.len() - 2] == '\r' && line[line.len() - 1] == '\n' {
        2
    } else if line.len() >= 1 && line[line.len() - 1] == '\n' {
        1
    } else {
        0
    }
}

/// `line` without its ending.
pub open spec fn line_body(line: Seq<char>) -> Seq<char> {
    line.take(line.len() - ending_len(line))
}

/// The ending of `line`.
pub open spec fn line_ending(line: Seq<char>) -> Seq<char> {
    line.skip(line.len() - ending_len(line))
}

/// Whether `text` holds neither line feed nor carriage return.
pub open spec fn no_break(text: Seq<char>) -> bool {
    forall|i: int| 0 <= i < text.len() ==> text[i] != '\n' && text[i] != '\r'
}

/// Whether `text` is made of whole lines: it is empty or ends in a line feed.
pub open spec fn complete(text: Seq<char>) -> bool {
    text.len() == 0 || text.last() == '\n'
}

/// Whether `line` is one line: not empty, with no line feed but at its end.
pub open spec fn is_line(line: Seq<char>) -> bool {
    line.len() > 0 && forall|i: int| 0 <= i < line.len() - 1 ==> line[i] != '\n'
}

/// `line_end` lies between `from` and the end, on a line feed or at the end,
/// and no line feed stands before it.
pub proof fn lemma_line_end(text: Seq<char>, from: int)
    requires
        0 <= from <= text.len(),
    ensures
        from <= line_end(text, from) <= text.len(),
        line_end(text, from) < text.len() ==> text[line_end(text, from)] == '\n',
        forall|j: int| from <= j < line_end(text, from) ==> text[j] != '\n',
    decreases text.len() - from,
{
    if from < text.len() && text[from] != '\n' {
        lemma_line_end(text, from + 1);
    }
}

/// The end of a line is the first line feed from `from` on, wherever one is.
pub proof fn lemma_line_end_is(text: Seq<char>, from: int, end: int)
    requires
        0 <= from <= end <= text.len(),
        forall|j: int| from <= j < end ==> text[j] != '\n',
        end < text.len() ==> text[end] == '\n',
    ensures
        line_end(text, from) == end,
{
    lemma_line_end(text, from);
    let found = line_end(text, from);
    if found < end {
        assert(text[found] == '\n');
    }
}

/// A text that is not empty has a first line, which is one line, and the
/// text is that line and what follows it.
pub proof fn lemma_first_line(text: Seq<char>)
    requires
        text.len() > 0,
    ensures
        1 <= first_line_len(text) <= text.len(),
        is_line(first_line(text)),
        first_line(text) + later_lines(text) == text,
        later_lines(text).len() < text.len(),
        later_lines(text).len() > 0 ==> first_line(text).last() == '\n',
        first_line(text).last() == '\n' || later_lines(text).len() == 0,
{
    lemma_line_end(text, 0);
    assert(first_line(text) + later_lines(text) =~= text);
}

/// One line is its own first line, and so it is before whatever follows it,
/// given that it ends in a line feed or nothing follows.
pub proof fn lemma_first_line_is(line: Seq<char>, rest: Seq<char>)
    requires
        is_line(line),
        line.last() == '\n' || rest.len() == 0,
    ensures
        first_line(line + rest) == line,
        later_lines(line + rest) == rest,
{
    let text = line + rest;
    let end = if line.last() == '\n' {
        line.len() - 1
    } else {
        line.len() as int
    };
    assert forall|j: int| 0 <= j < end implies text[j] != '\n' by {
        assert(text[j] == line[j]);
    }
    if end < text.len() {
        assert(text[end] == line[end]);
    }
    lemma_line_end_is(text, 0, end);
    assert(text.take(line.len() as int) =~= line);
    assert(text.skip(line.len() as int) =~= rest);
}

/// The lines of what follows index `at` end where the lines of the whole
/// text end.
pub proof fn lemma_line_end_skip(text: Seq<char>, at: int)
    requires
        0 <= at <= text.len(),
    ensures
        line_end(text.skip(at), 0) == line_end(text, at) - at,
{
    lemma_line_end(text, at);
    let end = line_end(text, at);
    let rest = text.skip(at);
    assert forall|j: int| 0 <= j < end - at implies rest[j] != '\n' by {
        assert(rest[j] == text[at + j]);
    }
    if end < text.len() {
        assert(rest[end - at] == text[end]);
    }
    lemma_line_end_is(rest, 0, end - at);
}

/// The characters of a string slice.
pub(crate) fn chars_of(s: &str) -> (v: Vec<char>)
    ensures
        v@ == s@,
{
    let mut v: Vec<char> = Vec::new();
    for c in it: s.chars()
        invariant
            v@ == it.seq().take(it.index() as int),
            it.seq() == s@,
    {
        v.push(c);
    }
    v
}

/// The string made of the given characters.
pub(crate) fn string_of(v: &Vec<char>) -> (s: String)
    ensures
        s@ == v@,
{
    let mut s = String::new();
    let mut i: usize = 0;
    while i < v.len()
        invariant
            i <= v.len(),
            s@ == v@.take(i as int),
        decreases v.len() - i,
    {
        s.push(v[i]);
        i += 1;
    }
    s
}

/// Appends `more` to `out`.
pub(crate) fn extend(out: &mut Vec<char>, more: &Vec<char>)
    ensures
        final(out)@ == old(out)@ + more@,
{
    let mut i: usize = 0;
    while i < more.len()
        invariant
            i <= more.len(),
            out@ == old(out)@ + more@.take(i as int),
        decreases more.len() - i,
    {
        out.push(more[i]);
        i += 1;
    }
}

/// Appends `text[from..to]` to `out`.
pub(crate) fn extend_range(out: &mut Vec<char>, text: &Vec<char>, from: usize, to: usize)
    requires
        from <= to <= text.len(),
    ensures
        final(out)@ == old(out)@ + text@.subrange(from as int, to as int),
{
    let mut i: usize = from;
    while i < to
        invariant
            from <= i <= to <= text.len(),
            out@ == old(out)@ + text@.subrange(from as int, i as int),
        decreases to - i,
    {
        out.push(text[i]);
        i += 1;
    }
}

/// Whether `pattern` stands in `text` at `at`.
pub(crate) fn matches_at(text: &Vec<char>, pattern: &Vec<char>, at: usize) -> (found: bool)
    ensures
        found == occurs_at(text@, pattern@, at as int),
{
    if pattern.len() > text.len() || at > text.len() - pattern.len() {
        return false;
    }
    let mut i: usize = 0;
    while i < pattern.len()
        invariant
            i <= pattern.len(),
            at + pattern.len() <= text.len(),
            forall|j: int| 0 <= j < i ==> text@[at + j] == pattern@[j],
        decreases pattern.len() - i,
    {
        if text[at + i] != pattern[i] {
            assert(text@.subrange(at as int, at + pattern.len())[i as int] != pattern@[i as int]);
            return false;
        }
        i += 1;
    }
    assert(text@.subrange(at as int, at + pattern.len()) =~= pattern@);
    true
}

/// The end of the line that holds index `from`.
pub(crate) fn find_line_end(text: &Vec<char>, from: usize) -> (end: usize)
    requires
        from <= text.len(),
    ensures
        end == line_end(text@, from as int),
        from <= end <= text.len(),
{
    let mut at: usize = from;
    while at < text.len() && text[at] != '\n'
        invariant
            from <= at <= text.len(),
            line_end(text@, from as int) == line_end(text@, at as int),
        decreases text.len() - at,
    {
        at += 1;
    }
    at
}

/// A line of `text`, given by its start.
pub(crate) struct Line {
    /// Where the line's body ends and its ending begins.
    pub body_end: usize,
    /// Where the next line begins.
    pub next: usize,
}

/// The first line of what follows index `from` of `text`.
pub(crate) fn line_from(text: &Vec<char>, from: usize) -> (line: Line)
    requires
        from < text.len(),
    ensures
        from <= line.body_end <= line.next <= text.len(),
        from < line.next,
        first_line(text@.skip(from as int)) == text@.subrange(from as int, line.next as int),
        later_lines(text@.skip(from as int)) == text@.skip(line.next as int),
        line_body(first_line(text@.skip(from as int))) == text@.subrange(
            from as int,
            line.body_end as int,
        ),
        line_ending(first_line(text@.skip(from as int))) == text@.subrange(
            line.body_end as int,
            line.next as int,
        ),
{
    let end = find_line_end(text, from);
    let next = if end < text.len() {
        end + 1
    } else {
        end
    };
    let ending: usize = if next - from >= 2 && text[next - 2] == '\r' && text[next - 1] == '\n' {
        2
    } else if text[next - 1] == '\n' {
        1
    } else {
        0
    };
    proof {
        let rest = text@.skip(from as int);
        lemma_line_end_skip(text@, from as int);
        let first = first_line(rest);
        assert(first =~= text@.subrange(from as int, next as int));
        assert(later_lines(rest) =~= text@.skip(next as int));
        assert(ending_len(first) == ending);
        assert(line_body(first) =~= text@.subrange(from as int, next - ending));
        assert(line_ending(first) =~= text@.subrange(next - ending, next as int));
    }
    Line { body_end: next - ending, next }
}

} // verus!
