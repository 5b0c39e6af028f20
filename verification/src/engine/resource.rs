//! The text format of a sprite: one row of glyphs per line.
//!
//! Lines end at a line feed, or at a carriage return directly followed by one; the
//! terminator belongs to no line, and a text need not end with one. A carriage
//! return elsewhere is an ordinary glyph.

use vstd::prelude::*;

verus! {

/// The rows held by a vector of vectors, as a sequence of sequences.
pub open spec fn rows_of(rows: &Vec<Vec<char>>) -> Seq<Seq<char>> {
    Seq::new(rows@.len(), |y: int| rows@[y]@)
}

/// The number of glyphs before the first line feed of `text`: all of them if it has none.
pub open spec fn line_end(text: Seq<char>) -> int
    decreases text.len(),
{
    if text.len() == 0 || text[0] == '\n' {
        0
    } else {
        1 + line_end(text.drop_first())
    }
}

/// `line` without the carriage return that belonged to its terminator.
pub open spec fn without_cr(line: Seq<char>) -> Seq<char> {
    if line.len() > 0 && line.last() == '\r' {
        line.drop_last()
    } else {
        line
    }
}

/// The lines of `text`, in order, without their terminators.
pub open spec fn lines_of(text: Seq<char>) -> Seq<Seq<char>>
    decreases text.len(),
{
    let end = line_end(text);
    if text.len() == 0 {
        Seq::empty()
    } else if end < 0 || end >= text.len() {
        seq![text]
    } else {
        seq![without_cr(text.take(end))] + lines_of(text.skip(end + 1))
    }
}

/// The length of the longest of `lines`; 0 if there is none.
pub open spec fn max_len(lines: Seq<Seq<char>>) -> nat
    decreases lines.len(),
{
    if lines.len() == 0 {
        0
    } else {
        let rest = max_len(lines.drop_last());
        if lines.last().len() > rest {
            lines.last().len()
        } else {
            rest
        }
    }
}

/// `line` followed by as many blanks as it takes to reach `width` glyphs.
pub open spec fn padded(line: Seq<char>, width: nat) -> Seq<char> {
    Seq::new(width, |x: int| if x < line.len() { line[x] } else { ' ' })
}

/// Where the first line feed of `text` is, given a stretch without one before it.
pub proof fn lemma_line_end(text: Seq<char>, k: int)
    requires
        0 <= k <= text.len(),
        forall|j: int| 0 <= j < k ==> text[j] != '\n',
        k == text.len() || text[k] == '\n',
    ensures
        line_end(text) == k,
    decreases k,
{
    if k > 0 {
        let rest = text.drop_first();
        assert forall|j: int| 0 <= j < k - 1 implies rest[j] != '\n' by {
            assert(rest[j] == text[j + 1]);
        }
        lemma_line_end(rest, k - 1);
    }
}

/// The longest line is at least as long as each line, and one line is that long.
pub proof fn lemma_max_len(lines: Seq<Seq<char>>)
    ensures
        forall|i: int| 0 <= i < lines.len() ==> (#[trigger] lines[i]).len() <= max_len(lines),
        lines.len() > 0 ==> exists|i: int| 0 <= i < lines.len() && (#[trigger] lines[i]).len() == max_len(lines),
    decreases lines.len(),
{
    if lines.len() > 0 {
        let front = lines.drop_last();
        lemma_max_len(front);
        assert forall|i: int| 0 <= i < lines.len() implies (#[trigger] lines[i]).len() <= max_len(lines) by {
            if i < lines.len() - 1 {
                assert(lines[i] == front[i]);
            }
        }
        if lines.last().len() > max_len(front) || front.len() == 0 {
            assert(lines[lines.len() - 1].len() == max_len(lines));
        } else {
            let i = choose|i: int| 0 <= i < front.len() && (#[trigger] front[i]).len() == max_len(front);
            assert(lines[i] == front[i]);
        }
    }
}

/// The glyphs of `text`, one by one.
pub fn string_to_utf8(text: &str) -> (row: Vec<char>)
    ensures
        row@ == text@,
{
    let mut row: Vec<char> = Vec::new();
    for c in it: text.chars()
        invariant
            row@ == it.seq().take(it.index() as int),
    {
        row.push(c);
    }
    row
}

/// Splits `text` into its lines.
pub fn split_lines(text: &str) -> (lines: Vec<Vec<char>>)
    ensures
        rows_of(&lines) == lines_of(text@),
{
    let glyphs = string_to_utf8(text);
    let mut lines: Vec<Vec<char>> = Vec::new();
    let mut current: Vec<char> = Vec::new();
    let mut start: usize = 0;
    let mut i: usize = 0;
    proof {
        assert(text@.skip(0) =~= text@);
        assert(rows_of(&lines) + lines_of(text@) =~= lines_of(text@));
    }
    while i < glyphs.len()
        invariant
            glyphs@ == text@,
            start <= i <= glyphs.len(),
            current@ == text@.subrange(start as int, i as int),
            forall|j: int| start <= j < i ==> text@[j] != '\n',
            lines_of(text@) == rows_of(&lines) + lines_of(text@.skip(start as int)),
        decreases glyphs.len() - i,
    {
        let c = glyphs[i];
        if c == '\n' {
            proof {
                let rest = text@.skip(start as int);
                lemma_line_end(rest, i - start);
                assert(rest.take(i - start) =~= current@);
                assert(rest.skip(i - start + 1) =~= text@.skip(i + 1));
            }
            let n: usize = current.len();
            if n > 0 && current[n - 1] == '\r' {
                current.pop();
            }
            assert(current@ =~= without_cr(text@.subrange(start as int, i as int)));
            let ghost before = rows_of(&lines);
            lines.push(current);
            assert(rows_of(&lines) =~= before.push(without_cr(text@.subrange(start as int, i as int))));
            current = Vec::new();
            start = i + 1;
            assert(rows_of(&lines) + lines_of(text@.skip(start as int)) =~= lines_of(text@));
        } else {
            current.push(c);
        }
        i += 1;
        assert(current@ =~= text@.subrange(start as int, i as int));
    }
    proof {
        let rest = text@.skip(start as int);
        assert(rest =~= current@);
        lemma_line_end(rest, rest.len() as int);
    }
    if current.len() > 0 {
        let ghost before = rows_of(&lines);
        lines.push(current);
        assert(rows_of(&lines) =~= before.push(text@.skip(start as int)));
        assert(rows_of(&lines) =~= lines_of(text@));
    } else {
        assert(rows_of(&lines) =~= lines_of(text@));
    }
    lines
}

} // verus!
