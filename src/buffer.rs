//! The line buffer: an ordered sequence of lines, each a sequence of characters.
use vstd::prelude::*;

verus! {

/// The text of each line of a buffer.
pub open spec fn lines_of(buf: Seq<Vec<char>>) -> Seq<Seq<char>> {
    buf.map_values(|l: Vec<char>| l@)
}

/// A buffer has as many lines as vectors, each with the vector's characters.
pub proof fn lemma_lines_of(buf: Seq<Vec<char>>)
    ensures
        lines_of(buf).len() == buf.len(),
        forall|i: int| 0 <= i < buf.len() ==> #[trigger] lines_of(buf)[i] == buf[i]@,
{
}

/// `line` with `text` put in at `column`.
pub open spec fn inserted(line: Seq<char>, column: int, text: Seq<char>) -> Seq<char> {
    line.take(column) + text + line.skip(column)
}

/// The buffer with line `line` cut in two at `column`.
pub open spec fn split_at_line(lines: Seq<Seq<char>>, line: int, column: int) -> Seq<Seq<char>> {
    lines.take(line) + seq![lines[line].take(column), lines[line].skip(column)] + lines.skip(
        line + 1,
    )
}

/// The buffer with line `line` appended to line `line - 1`.
pub open spec fn merged(lines: Seq<Seq<char>>, line: int) -> Seq<Seq<char>> {
    lines.take(line - 1) + seq![lines[line - 1] + lines[line]] + lines.skip(line + 1)
}

/// The buffer with the character before `column` taken out of line `line`.
pub open spec fn char_removed(lines: Seq<Seq<char>>, line: int, column: int) -> Seq<Seq<char>> {
    lines.update(line, lines[line].remove(column - 1))
}

/// Inserts `text` at `column` of line `line`.
pub fn insert_text(buf: &mut Vec<Vec<char>>, line: usize, column: usize, text: &Vec<char>)
    requires
        line < old(buf)@.len(),
        column <= old(buf)@[line as int]@.len(),
    ensures
        lines_of(final(buf)@) == lines_of(old(buf)@).update(
            line as int,
            inserted(old(buf)@[line as int]@, column as int, text@),
        ),
{
    let ghost before = old(buf)@[line as int]@;
    let mut i: usize = 0;
    while i < text.len()
        invariant
            i <= text@.len(),
            line < buf@.len(),
            buf@.len() == old(buf)@.len(),
            column <= before.len(),
            forall|k: int| 0 <= k < buf@.len() && k != line ==> buf@[k] == old(buf)@[k],
            buf@[line as int]@ == before.take(column as int) + text@.take(i as int) + before.skip(
                column as int,
            ),
        decreases text@.len() - i,
    {
        let ghost cur = buf@[line as int]@;
        assert(cur.len() == before.len() + i);
        let len = buf[line].len();
        assert(column + i <= len);
        buf[line].insert(column + i, text[i]);
        assert(buf@[line as int]@ =~= before.take(column as int) + text@.take(i + 1) + before.skip(
            column as int,
        )) by {
            assert(cur.take(column + i) =~= before.take(column as int) + text@.take(i as int));
            assert(cur.skip(column + i) =~= before.skip(column as int));
            assert(text@.take(i + 1) =~= text@.take(i as int).push(text@[i as int]));
        }
        i = i + 1;
    }
    assert(text@.take(i as int) =~= text@);
    assert(lines_of(buf@) =~= lines_of(old(buf)@).update(
        line as int,
        inserted(before, column as int, text@),
    ));
}

/// Deletes the character just before `column` in line `line`.
pub fn remove_char(buf: &mut Vec<Vec<char>>, line: usize, column: usize)
    requires
        line < old(buf)@.len(),
        0 < column <= old(buf)@[line as int]@.len(),
    ensures
        lines_of(final(buf)@) == char_removed(lines_of(old(buf)@), line as int, column as int),
{
    buf[line].remove(column - 1);
    assert(lines_of(buf@) =~= char_removed(lines_of(old(buf)@), line as int, column as int));
}

/// Cuts line `line` at `column`: what follows becomes a new line just after it.
pub fn split_line(buf: &mut Vec<Vec<char>>, line: usize, column: usize)
    requires
        line < old(buf)@.len(),
        column <= old(buf)@[line as int]@.len(),
    ensures
        lines_of(final(buf)@) == split_at_line(lines_of(old(buf)@), line as int, column as int),
{
    let count = buf.len();
    assert(line + 1 <= count);
    let after = buf[line].split_off(column);
    buf.insert(line + 1, after);
    assert(lines_of(buf@) =~= split_at_line(lines_of(old(buf)@), line as int, column as int));
}

/// Appends line `line` to the line before it and removes it. Returns the length
/// that the line before had, where the two now meet.
pub fn merge_line(buf: &mut Vec<Vec<char>>, line: usize) -> (r: usize)
    requires
        0 < line < old(buf)@.len(),
    ensures
        lines_of(final(buf)@) == merged(lines_of(old(buf)@), line as int),
        r == old(buf)@[line - 1]@.len(),
{
    let mut current = buf.remove(line);
    let r = buf[line - 1].len();
    buf[line - 1].append(&mut current);
    assert(lines_of(buf@) =~= merged(lines_of(old(buf)@), line as int));
    r
}

/// The buffer after `n` backspaces on line `line`, the first at `column` and
/// each next one a column further left.
pub open spec fn backspaced_n(lines: Seq<Seq<char>>, line: int, column: int, n: nat) -> Seq<
    Seq<char>,
>
    decreases n,
{
    if n == 0 {
        lines
    } else {
        backspaced_n(char_removed(lines, line, column), line, column - 1, (n - 1) as nat)
    }
}

proof fn lemma_remove_typed(
    lines: Seq<Seq<char>>,
    line: int,
    pre: Seq<char>,
    text: Seq<char>,
    post: Seq<char>,
)
    requires
        0 <= line < lines.len(),
    ensures
        backspaced_n(
            lines.update(line, pre + text + post),
            line,
            (pre.len() + text.len()) as int,
            text.len(),
        ) == lines.update(line, pre + post),
    decreases text.len(),
{
    if text.len() > 0 {
        let shorter = text.drop_last();
        let removed = char_removed(lines.update(line, pre + text + post), line, (pre.len() + text.len()) as int);
        assert((pre + text + post).remove(pre.len() + text.len() - 1) =~= pre + shorter + post);
        assert(removed =~= lines.update(line, pre + shorter + post).update(line, pre + shorter + post));
        assert(lines.update(line, pre + shorter + post).update(line, pre + shorter + post)
            =~= lines.update(line, pre + shorter + post));
        lemma_remove_typed(lines, line, pre, shorter, post);
    } else {
        assert(pre + text + post =~= pre + post);
    }
}

/// Typing a text at a position and then backspacing once for each of its
/// characters, from the column just past it, gives back the buffer as it was.
pub proof fn lemma_insert_then_remove(
    lines: Seq<Seq<char>>,
    line: int,
    column: int,
    text: Seq<char>,
)
    requires
        0 <= line < lines.len(),
        0 <= column <= lines[line].len(),
    ensures
        backspaced_n(
            lines.update(line, inserted(lines[line], column, text)),
            line,
            column + text.len(),
            text.len(),
        ) == lines,
{
    let l = lines[line];
    lemma_remove_typed(lines, line, l.take(column), text, l.skip(column));
    assert(l.take(column) + l.skip(column) =~= l);
    assert(lines.update(line, l) =~= lines);
}

} // verus!
