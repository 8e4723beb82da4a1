//! Cutting text: trimming white space, splitting on a delimiter, splitting
//! into lines.
//!
//! Each operation is defined on sequences of characters and computed in one
//! pass over the characters of a string.

use vstd::prelude::*;
use vstd::std_specs::iter::IteratorSpec;

verus! {

/// Whether `c` is white space to `char::is_whitespace`, that is, has the
/// Unicode property `White_Space`.
pub uninterp spec fn is_whitespace(c: char) -> bool;

/// `char::is_whitespace` computes `is_whitespace`. The property is a fixed
/// table of code points; nothing is claimed here of which ones it holds.
pub assume_specification[ char::is_whitespace ](c: char) -> (white: bool)
    ensures
        white == is_whitespace(c),
;

/// `String::push` appends the one character to the end of the string.
pub assume_specification[ String::push ](text: &mut String, ch: char)
    ensures
        final(text)@ == old(text)@.push(ch),
;

/// `text` without the white space it starts with.
pub open spec fn trim_start(text: Seq<char>) -> Seq<char>
    decreases text.len(),
{
    if text.len() > 0 && is_whitespace(text[0]) {
        trim_start(text.drop_first())
    } else {
        text
    }
}

/// `text` without the white space it ends with.
pub open spec fn trim_end(text: Seq<char>) -> Seq<char>
    decreases text.len(),
{
    if text.len() > 0 && is_whitespace(text.last()) {
        trim_end(text.drop_last())
    } else {
        text
    }
}

/// `text` without the white space at either end.
pub open spec fn trimmed(text: Seq<char>) -> Seq<char> {
    trim_end(trim_start(text))
}

/// The pieces of `text` between the occurrences of `delimiter`, in order.
/// There is always one piece more than there are delimiters, so the pieces
/// before the first, between two adjacent ones and after the last delimiter
/// are there even when empty.
pub open spec fn split_on(text: Seq<char>, delimiter: char) -> Seq<Seq<char>>
    decreases text.len(),
{
    if text.len() == 0 {
        seq![Seq::empty()]
    } else {
        let before = split_on(text.drop_last(), delimiter);
        if text.last() == delimiter {
            before.push(Seq::empty())
        } else {
            before.drop_last().push(before.last().push(text.last()))
        }
    }
}

/// `pieces` put together again with `delimiter` between each two.
pub open spec fn join(pieces: Seq<Seq<char>>, delimiter: char) -> Seq<char>
    decreases pieces.len(),
{
    if pieces.len() == 0 {
        Seq::empty()
    } else if pieces.len() == 1 {
        pieces[0]
    } else {
        join(pieces.drop_last(), delimiter).push(delimiter) + pieces.last()
    }
}

/// `line` without the carriage return it ends with, if it ends with one.
pub open spec fn strip_cr(line: Seq<char>) -> Seq<char> {
    if line.len() > 0 && line.last() == '\r' {
        line.drop_last()
    } else {
        line
    }
}

/// The lines of `text`. A line ends at a line feed; the line feed, and a
/// carriage return directly before it, are not part of the line. What follows
/// the last line feed is a line of its own unless it is empty, and keeps a
/// carriage return at its end.
pub open spec fn lines_of(text: Seq<char>) -> Seq<Seq<char>> {
    let pieces = split_on(text, '\n');
    let ended = pieces.drop_last().map_values(|line: Seq<char>| strip_cr(line));
    if pieces.last().len() == 0 {
        ended
    } else {
        ended.push(pieces.last())
    }
}

/// The texts of a list of strings.
pub open spec fn texts(strings: Seq<String>) -> Seq<Seq<char>> {
    strings.map_values(|s: String| s@)
}

/// Where the white space at the start of `text` ends: everything before
/// that place is white space, what stands there is not, and `trim_start` is
/// the text from there on.
pub proof fn lemma_trim_start_at(text: Seq<char>) -> (start: int)
    ensures
        0 <= start <= text.len(),
        forall|at: int| 0 <= at < start ==> is_whitespace(#[trigger] text[at]),
        start < text.len() ==> !is_whitespace(text[start]),
        trim_start(text) == text.skip(start),
    decreases text.len(),
{
    if text.len() > 0 && is_whitespace(text[0]) {
        let rest = text.drop_first();
        let start = lemma_trim_start_at(rest);
        assert forall|at: int| 0 <= at < start + 1 implies is_whitespace(#[trigger] text[at]) by {
            if at > 0 {
                assert(text[at] == rest[at - 1]);
            }
        }
        start + 1
    } else {
        0
    }
}

/// Where the white space at the end of `text` starts: everything from that
/// place on is white space, what stands before it is not, and `trim_end` is
/// the text up to there.
pub proof fn lemma_trim_end_at(text: Seq<char>) -> (end: int)
    ensures
        0 <= end <= text.len(),
        forall|at: int| end <= at < text.len() ==> is_whitespace(#[trigger] text[at]),
        end > 0 ==> !is_whitespace(text[end - 1]),
        trim_end(text) == text.take(end),
    decreases text.len(),
{
    if text.len() > 0 && is_whitespace(text.last()) {
        let rest = text.drop_last();
        let end = lemma_trim_end_at(rest);
        assert forall|at: int| end <= at < text.len() implies is_whitespace(#[trigger] text[at]) by {
            if at < rest.len() {
                assert(text[at] == rest[at]);
            }
        }
        end
    } else {
        text.len() as int
    }
}

/// Trimming takes a part out of the middle of the text and leaves only
/// white space behind on either side; the part neither starts nor ends with
/// white space.
pub proof fn lemma_trimmed_part(text: Seq<char>) -> (bounds: (int, int))
    ensures
        0 <= bounds.0 <= bounds.1 <= text.len(),
        trimmed(text) == text.subrange(bounds.0, bounds.1),
        forall|at: int| 0 <= at < bounds.0 ==> is_whitespace(#[trigger] text[at]),
        forall|at: int| bounds.1 <= at < text.len() ==> is_whitespace(#[trigger] text[at]),
        trimmed(text).len() > 0 ==> !is_whitespace(trimmed(text)[0]) && !is_whitespace(
            trimmed(text).last(),
        ),
{
    let start = lemma_trim_start_at(text);
    let rest = text.skip(start);
    let kept = lemma_trim_end_at(rest);
    assert forall|at: int| start + kept <= at < text.len() implies is_whitespace(
        #[trigger] text[at],
    ) by {
        assert(text[at] == rest[at - start]);
    }
    (start, start + kept)
}

/// The trimmed text is the only such part: a part of the text that has
/// nothing but white space on either side, and that neither starts nor ends
/// with white space, is the trimmed text.
pub proof fn lemma_trimmed_is_the_only_part(text: Seq<char>, from: int, to: int)
    requires
        0 <= from <= to <= text.len(),
        forall|at: int| 0 <= at < from ==> is_whitespace(#[trigger] text[at]),
        forall|at: int| to <= at < text.len() ==> is_whitespace(#[trigger] text[at]),
        from < to ==> !is_whitespace(text[from]) && !is_whitespace(text[to - 1]),
    ensures
        trimmed(text) == text.subrange(from, to),
{
    lemma_trimmed_part(text);
}

/// Trimming what is trimmed changes nothing.
pub proof fn lemma_trimmed_twice(text: Seq<char>)
    ensures
        trimmed(trimmed(text)) == trimmed(text),
{
    lemma_trimmed_part(text);
}

/// A split has one piece more than the text has delimiters, so at least one.
pub proof fn lemma_split_on_len(text: Seq<char>, delimiter: char)
    ensures
        split_on(text, delimiter).len() == 1 + text.filter(|c: char| c == delimiter).len(),
    decreases text.len(),
{
    reveal(Seq::filter);
    if text.len() > 0 {
        lemma_split_on_len(text.drop_last(), delimiter);
    }
}

/// No piece of a split holds the delimiter.
pub proof fn lemma_split_pieces_hold_no_delimiter(text: Seq<char>, delimiter: char)
    ensures
        forall|at: int|
            0 <= at < split_on(text, delimiter).len() ==> !(#[trigger] split_on(
                text,
                delimiter,
            )[at]).contains(delimiter),
    decreases text.len(),
{
    if text.len() > 0 {
        lemma_split_pieces_hold_no_delimiter(text.drop_last(), delimiter);
        lemma_split_on_len(text.drop_last(), delimiter);
    }
}

/// Joining the pieces of a split with the delimiter gives the text back.
pub proof fn lemma_join_split(text: Seq<char>, delimiter: char)
    ensures
        join(split_on(text, delimiter), delimiter) == text,
    decreases text.len(),
{
    if text.len() > 0 {
        let shorter = text.drop_last();
        let before = split_on(shorter, delimiter);
        lemma_join_split(shorter, delimiter);
        lemma_split_on_len(shorter, delimiter);
        let pieces = split_on(text, delimiter);
        if text.last() == delimiter {
            assert(pieces.drop_last() =~= before);
        } else if before.len() > 1 {
            assert(pieces.drop_last() =~= before.drop_last());
        }
        assert(shorter.push(text.last()) =~= text);
    }
}

/// The split is the only way to cut a text at a delimiter: pieces that hold
/// no delimiter and join to the text are the pieces of the split.
pub proof fn lemma_split_is_the_only_cut(
    text: Seq<char>,
    delimiter: char,
    pieces: Seq<Seq<char>>,
)
    requires
        pieces.len() >= 1,
        forall|at: int| 0 <= at < pieces.len() ==> !(#[trigger] pieces[at]).contains(delimiter),
        join(pieces, delimiter) == text,
    ensures
        pieces == split_on(text, delimiter),
    decreases text.len(),
{
    let last = pieces.last();
    let others = pieces.drop_last();
    if pieces.len() == 1 {
        lemma_piece_is_its_own_split(text, delimiter);
    } else {
        let joined = join(others, delimiter).push(delimiter);
        if last.len() == 0 {
            assert(text.drop_last() =~= join(others, delimiter));
            lemma_split_is_the_only_cut(text.drop_last(), delimiter, others);
            assert(last =~= Seq::<char>::empty());
        } else {
            let shorter = others.push(last.drop_last());
            assert(shorter.drop_last() =~= others);
            assert(text.drop_last() =~= joined + last.drop_last());
            lemma_split_is_the_only_cut(text.drop_last(), delimiter, shorter);
            assert(last.drop_last().push(text.last()) =~= last);
        }
    }
}

/// A text without the delimiter is the one piece of its split.
pub proof fn lemma_piece_is_its_own_split(text: Seq<char>, delimiter: char)
    requires
        !text.contains(delimiter),
    ensures
        split_on(text, delimiter) == seq![text],
    decreases text.len(),
{
    if text.len() == 0 {
        assert(text =~= Seq::<char>::empty());
    } else {
        let shorter = text.drop_last();
        lemma_piece_is_its_own_split(shorter, delimiter);
        assert(shorter.push(text.last()) =~= text);
    }
}

/// Joining and splitting again gives the pieces back, where none of them
/// holds the delimiter.
pub proof fn lemma_split_join(pieces: Seq<Seq<char>>, delimiter: char)
    requires
        pieces.len() >= 1,
        forall|at: int| 0 <= at < pieces.len() ==> !(#[trigger] pieces[at]).contains(delimiter),
    ensures
        split_on(join(pieces, delimiter), delimiter) == pieces,
{
    lemma_split_is_the_only_cut(join(pieces, delimiter), delimiter, pieces);
}

/// Lines written out one after the other, each ended by a line feed, are
/// read back as they were, where none holds a line feed or ends in a
/// carriage return. The line feed after the last line may be left out if
/// that line is not empty.
pub proof fn lemma_lines_join(pieces: Seq<Seq<char>>)
    requires
        pieces.len() >= 1,
        forall|at: int| 0 <= at < pieces.len() ==> !(#[trigger] pieces[at]).contains('\n'),
        forall|at: int| 0 <= at < pieces.len() ==> strip_cr(#[trigger] pieces[at]) == pieces[at],
    ensures
        lines_of(join(pieces, '\n').push('\n')) == pieces,
        pieces.last().len() > 0 ==> lines_of(join(pieces, '\n')) == pieces,
{
    let open = join(pieces, '\n');
    lemma_split_join(pieces, '\n');
    assert(open.push('\n').drop_last() =~= open);
}

/// Every character of a piece of a split stands in the text.
pub proof fn lemma_split_pieces_are_of_the_text(text: Seq<char>, delimiter: char)
    ensures
        forall|at: int, within: int|
            0 <= at < split_on(text, delimiter).len() && 0 <= within < split_on(
                text,
                delimiter,
            )[at].len() ==> text.contains(#[trigger] split_on(text, delimiter)[at][within]),
    decreases text.len(),
{
    if text.len() > 0 {
        lemma_split_pieces_are_of_the_text(text.drop_last(), delimiter);
        lemma_split_on_len(text.drop_last(), delimiter);
    }
}

/// Where no carriage return stands, and the text does not end in a line
/// feed, the lines are what stands between the line feeds.
pub proof fn lemma_lines_are_the_split(text: Seq<char>)
    requires
        text.len() > 0,
        text.last() != '\n',
        !text.contains('\r'),
    ensures
        lines_of(text) == split_on(text, '\n'),
{
    let pieces = split_on(text, '\n');
    let ended = pieces.drop_last().map_values(|line: Seq<char>| strip_cr(line));
    lemma_split_on_len(text, '\n');
    lemma_split_on_len(text.drop_last(), '\n');
    lemma_split_pieces_are_of_the_text(text, '\n');
    assert forall|at: int| 0 <= at < ended.len() implies ended[at] == pieces[at] by {}
}

/// No line holds a line feed.
pub proof fn lemma_lines_hold_no_line_feed(text: Seq<char>)
    ensures
        forall|at: int|
            0 <= at < lines_of(text).len() ==> !(#[trigger] lines_of(text)[at]).contains('\n'),
{
    lemma_split_pieces_hold_no_delimiter(text, '\n');
    lemma_split_on_len(text, '\n');
}

/// Splitting one character further: a delimiter opens a new, empty piece and
/// any other character joins the last piece.
proof fn lemma_split_on_step(text: Seq<char>, delimiter: char, upto: int)
    requires
        0 <= upto < text.len(),
    ensures
        split_on(text.take(upto + 1), delimiter) == ({
            let before = split_on(text.take(upto), delimiter);
            if text[upto] == delimiter {
                before.push(Seq::empty())
            } else {
                before.drop_last().push(before.last().push(text[upto]))
            }
        }),
        split_on(text.take(upto), delimiter).len() > 0,
{
    lemma_split_on_len(text.take(upto), delimiter);
    assert(text.take(upto + 1).drop_last() =~= text.take(upto));
}

/// The characters of a string, one by one.
pub(crate) fn chars_of(text: &str) -> (chars: Vec<char>)
    ensures
        chars@ == text@,
{
    let mut chars: Vec<char> = Vec::new();
    for c in it: text.chars()
        invariant
            it.seq() == text@,
            chars@ == text@.take(it.index() as int),
    {
        chars.push(c);
    }
    chars
}

/// The string made of the characters of `chars` from `from` up to `to`.
pub(crate) fn string_of(chars: &Vec<char>, from: usize, to: usize) -> (text: String)
    requires
        from <= to <= chars.len(),
    ensures
        text@ == chars@.subrange(from as int, to as int),
{
    let mut text = String::new();
    let mut at: usize = from;
    while at < to
        invariant
            from <= at <= to <= chars.len(),
            text@ == chars@.subrange(from as int, at as int),
        decreases to - at,
    {
        text.push(chars[at]);
        at = at + 1;
    }
    text
}

/// The bounds of `chars` without the white space at either end.
pub(crate) fn trim_bounds(chars: &Vec<char>) -> (bounds: (usize, usize))
    ensures
        bounds.0 <= bounds.1 <= chars.len(),
        chars@.subrange(bounds.0 as int, bounds.1 as int) == trimmed(chars@),
{
    let mut start: usize = 0;
    while start < chars.len() && chars[start].is_whitespace()
        invariant
            start <= chars.len(),
            forall|i: int| 0 <= i < start ==> is_whitespace(#[trigger] chars@[i]),
        decreases chars.len() - start,
    {
        start = start + 1;
    }
    let mut end: usize = chars.len();
    while end > start && chars[end - 1].is_whitespace()
        invariant
            start <= end <= chars.len(),
            forall|i: int| end <= i < chars.len() ==> is_whitespace(#[trigger] chars@[i]),
        decreases end,
    {
        end = end - 1;
    }
    proof {
        lemma_trimmed_is_the_only_part(chars@, start as int, end as int);
    }
    (start, end)
}

/// `text` without the white space at either end.
pub fn trim(text: &str) -> (out: String)
    ensures
        out@ == trimmed(text@),
{
    let chars = chars_of(text);
    let (start, end) = trim_bounds(&chars);
    string_of(&chars, start, end)
}

/// The pieces of `chars` from `from` up to `to` between the occurrences of
/// `delimiter`.
pub(crate) fn split_range(chars: &Vec<char>, from: usize, to: usize, delimiter: char) -> (pieces: Vec<
    String,
>)
    requires
        from <= to <= chars.len(),
    ensures
        texts(pieces@) == split_on(chars@.subrange(from as int, to as int), delimiter),
{
    let ghost whole = chars@.subrange(from as int, to as int);
    let mut pieces: Vec<String> = Vec::new();
    let mut piece_start: usize = from;
    let mut at: usize = from;
    assert(chars@.subrange(from as int, from as int) =~= Seq::<char>::empty());
    while at < to
        invariant
            from <= piece_start <= at <= to <= chars.len(),
            whole == chars@.subrange(from as int, to as int),
            split_on(whole.take(at - from), delimiter) == texts(pieces@).push(
                chars@.subrange(piece_start as int, at as int),
            ),
        decreases to - at,
    {
        proof {
            lemma_split_on_step(whole, delimiter, at - from);
        }
        let ghost piece = chars@.subrange(piece_start as int, at as int);
        if chars[at] == delimiter {
            pieces.push(string_of(chars, piece_start, at));
            piece_start = at + 1;
            assert(chars@.subrange(piece_start as int, at + 1) =~= Seq::<char>::empty());
        } else {
            assert(chars@.subrange(piece_start as int, at + 1) =~= piece.push(chars@[at as int]));
        }
        at = at + 1;
    }
    pieces.push(string_of(chars, piece_start, to));
    assert(whole.take(to - from) =~= whole);
    pieces
}

/// The lines of `chars` from `from` up to `to`.
pub(crate) fn lines_range(chars: &Vec<char>, from: usize, to: usize) -> (lines: Vec<String>)
    requires
        from <= to <= chars.len(),
    ensures
        texts(lines@) == lines_of(chars@.subrange(from as int, to as int)),
{
    let ghost whole = chars@.subrange(from as int, to as int);
    let ghost strip = |line: Seq<char>| strip_cr(line);
    let mut lines: Vec<String> = Vec::new();
    let mut line_start: usize = from;
    let mut at: usize = from;
    while at < to
        invariant
            from <= line_start <= at <= to <= chars.len(),
            whole == chars@.subrange(from as int, to as int),
            strip == |line: Seq<char>| strip_cr(line),
            split_on(whole.take(at - from), '\n').len() > 0,
            split_on(whole.take(at - from), '\n').last() == chars@.subrange(
                line_start as int,
                at as int,
            ),
            texts(lines@) == split_on(whole.take(at - from), '\n').drop_last().map_values(strip),
        decreases to - at,
    {
        proof {
            lemma_split_on_step(whole, '\n', at - from);
        }
        let ghost before = split_on(whole.take(at - from), '\n');
        let ghost after = split_on(whole.take(at - from + 1), '\n');
        let ghost ended = texts(lines@);
        let ghost line = chars@.subrange(line_start as int, at as int);
        if chars[at] == '\n' {
            let line_end: usize = if at > line_start && chars[at - 1] == '\r' {
                at - 1
            } else {
                at
            };
            assert(chars@.subrange(line_start as int, line_end as int) =~= strip_cr(line));
            lines.push(string_of(chars, line_start, line_end));
            line_start = at + 1;
            assert(after.drop_last() =~= before);
            assert(before.map_values(strip) =~= ended.push(strip_cr(line)));
        }
        at = at + 1;
    }
    assert(whole.take(to - from) =~= whole);
    if line_start < to {
        lines.push(string_of(chars, line_start, to));
    }
    lines
}

/// The pieces of `text` between the occurrences of `delimiter`.
pub fn split(text: &str, delimiter: char) -> (pieces: Vec<String>)
    ensures
        texts(pieces@) == split_on(text@, delimiter),
{
    let chars = chars_of(text);
    assert(chars@.subrange(0, chars@.len() as int) =~= chars@);
    split_range(&chars, 0, chars.len(), delimiter)
}

/// The lines of `text`.
pub fn lines(text: &str) -> (lines: Vec<String>)
    ensures
        texts(lines@) == lines_of(text@),
{
    let chars = chars_of(text);
    assert(chars@.subrange(0, chars@.len() as int) =~= chars@);
    lines_range(&chars, 0, chars.len())
}

} // verus!
