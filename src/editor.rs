//! The editor's state: the line buffer, the cursor and the mode.
use vstd::prelude::*;
use crate::buffer::lines_of;
use crate::parse_config::LineNumber;
use vstd::std_specs::iter::IteratorSpec;

verus! {

/// A position in the buffer: `x` is the column, `y` the line. `max_x` is the
/// column last reached by horizontal movement.
pub struct CursorPos {
    pub x: usize,
    pub y: usize,
    pub max_x: usize,
}

impl CursorPos {
    /// Whether the cursor stands at the very start of the buffer.
    pub fn is_zero(&self) -> (r: bool)
        ensures
            r == (self.x == 0 && self.y == 0),
    {
        self.x == 0 && self.y == 0
    }
}

/// The editing mode, which decides how keys are read.
#[derive(Clone, Copy, Debug, PartialEq, Eq, Structural)]
pub enum EditorMode {
    Insert,
    Normal,
    Visual,
    Replace,
    Command,
}

pub struct Editor {
    pub file_content: Vec<Vec<char>>,
    pub cursor_pos: CursorPos,
    pub scroll_offset: u32,
    pub editor_mode: EditorMode,
}

/// What an editor holds, as mathematical values.
pub ghost struct EditorView {
    pub lines: Seq<Seq<char>>,
    pub line: int,
    pub column: int,
    pub max_column: int,
    pub scroll: int,
    pub mode: EditorMode,
}

impl EditorView {
    /// The cursor stands on an existing line, at most one past its last character,
    /// and the buffer is never empty.
    pub open spec fn wf(self) -> bool {
        &&& self.lines.len() >= 1
        &&& 0 <= self.line < self.lines.len()
        &&& 0 <= self.column <= self.lines[self.line].len()
    }

    /// The line under the cursor.
    pub open spec fn current(self) -> Seq<char> {
        self.lines[self.line]
    }

    /// The same state with the cursor at `(line, column)`.
    pub open spec fn at(self, line: int, column: int) -> EditorView {
        EditorView { line, column, ..self }
    }

    /// The same state with other text and the cursor at `(line, column)`.
    pub open spec fn edited(self, lines: Seq<Seq<char>>, line: int, column: int) -> EditorView {
        EditorView { lines, line, column, ..self }
    }

    /// The same state in another mode.
    pub open spec fn in_mode(self, mode: EditorMode) -> EditorView {
        EditorView { mode, ..self }
    }
}

impl View for Editor {
    type V = EditorView;

    open spec fn view(&self) -> EditorView {
        EditorView {
            lines: lines_of(self.file_content@),
            line: self.cursor_pos.y as int,
            column: self.cursor_pos.x as int,
            max_column: self.cursor_pos.max_x as int,
            scroll: self.scroll_offset as int,
            mode: self.editor_mode,
        }
    }
}

/// `line` without a carriage return at its end.
pub open spec fn strip_cr(line: Seq<char>) -> Seq<char> {
    if line.len() > 0 && line.last() == '\r' {
        line.drop_last()
    } else {
        line
    }
}

/// The lines of `s`, where `cur` has been read of the first one: a line ends at
/// `\n` or `\r\n`, and a final line ending adds no empty line.
pub open spec fn lines_from(s: Seq<char>, cur: Seq<char>) -> Seq<Seq<char>>
    decreases s.len(),
{
    if s.len() == 0 {
        if cur.len() == 0 {
            seq![]
        } else {
            seq![cur]
        }
    } else if s[0] == '\n' {
        seq![strip_cr(cur)] + lines_from(s.drop_first(), seq![])
    } else {
        lines_from(s.drop_first(), cur.push(s[0]))
    }
}

/// The lines of a text.
pub open spec fn text_lines(s: Seq<char>) -> Seq<Seq<char>> {
    lines_from(s, seq![])
}

/// A line as the buffer holds it: with a trailing space.
pub open spec fn with_sentinel(line: Seq<char>) -> Seq<char> {
    line.push(' ')
}

/// The buffer that a text loads into: each of its lines with a trailing space,
/// or one line of a single space where the text has none.
pub open spec fn loaded(s: Seq<char>) -> Seq<Seq<char>> {
    let ls = text_lines(s);
    if ls.len() == 0 {
        seq![seq![' ']]
    } else {
        ls.map_values(|l: Seq<char>| with_sentinel(l))
    }
}

impl Editor {
    /// An editor in Normal mode on the text of a file, the cursor at its start.
    pub fn init(file_text: &str) -> (r: Editor)
        ensures
            r@.lines == loaded(file_text@),
            r@.line == 0 && r@.column == 0 && r@.max_column == 0 && r@.scroll == 0,
            r@.mode == EditorMode::Normal,
            r@.wf(),
    {
        let mut file_content: Vec<Vec<char>> = Vec::new();
        let mut cur: Vec<char> = Vec::new();
        let ghost done: Seq<Seq<char>> = seq![];
        let mut chars = file_text.chars();
        assert(chars.remaining() == file_text@);
        loop
            invariant
                text_lines(file_text@) == done + lines_from(chars.remaining(), cur@),
                lines_of(file_content@) == done.map_values(|l: Seq<char>| with_sentinel(l)),
                chars.obeys_prophetic_iter_laws(),
                chars.decrease() is Some,
            ensures
                text_lines(file_text@) == done + lines_from(chars.remaining(), cur@),
                lines_of(file_content@) == done.map_values(|l: Seq<char>| with_sentinel(l)),
                chars.remaining().len() == 0,
            decreases chars.decrease()->0,
        {
            let ghost rem = chars.remaining();
            let ghost fc = lines_of(file_content@);
            match chars.next() {
                None => {
                    break;
                },
                Some(c) => {
                    assert(rem.len() > 0 && rem[0] == c);
                    assert(chars.remaining() == rem.drop_first());
                    if c == '\n' {
                        let ghost line = strip_cr(cur@);
                        assert(lines_from(rem, cur@) == seq![line] + lines_from(rem.drop_first(), seq![]));
                        let n = cur.len();
                        if n > 0 && cur[n - 1] == '\r' {
                            cur.pop();
                        }
                        assert(cur@ =~= line);
                        cur.push(' ');
                        file_content.push(cur);
                        cur = Vec::new();
                        proof {
                            assert(lines_of(file_content@) =~= fc.push(with_sentinel(line)));
                            assert(done.push(line).map_values(|l: Seq<char>| with_sentinel(l))
                                =~= done.map_values(|l: Seq<char>| with_sentinel(l)).push(
                                with_sentinel(line),
                            ));
                            assert(cur@ =~= seq![]);
                            assert(done + (seq![line] + lines_from(rem.drop_first(), seq![]))
                                =~= done.push(line) + lines_from(chars.remaining(), cur@));
                            done = done.push(line);
                        }
                    } else {
                        cur.push(c);
                    }
                },
            }
        }
        if cur.len() > 0 {
            let ghost line = cur@;
            let ghost fc = lines_of(file_content@);
            cur.push(' ');
            file_content.push(cur);
            proof {
                assert(lines_of(file_content@) =~= fc.push(with_sentinel(line)));
                assert(done.push(line).map_values(|l: Seq<char>| with_sentinel(l))
                    =~= done.map_values(|l: Seq<char>| with_sentinel(l)).push(with_sentinel(line)));
                done = done.push(line);
            }
        } else {
            assert(done + lines_from(chars.remaining(), cur@) =~= done);
        }
        assert(text_lines(file_text@) == done);
        if file_content.len() == 0 {
            let mut blank: Vec<char> = Vec::new();
            blank.push(' ');
            file_content.push(blank);
            assert(lines_of(file_content@) =~= loaded(file_text@));
        } else {
            assert(lines_of(file_content@) =~= loaded(file_text@));
        }
        Editor {
            file_content,
            cursor_pos: CursorPos { x: 0, y: 0, max_x: 0 },
            scroll_offset: 0,
            editor_mode: EditorMode::Normal,
        }
    }
}

/// The number shown beside line `line_index` when the cursor is on line
/// `cursor_line`.
pub open spec fn shown_line_number(cursor_line: int, line_index: int, style: LineNumber) -> int {
    if style.relative {
        if cursor_line >= line_index {
            cursor_line - line_index
        } else {
            line_index - cursor_line
        }
    } else if style.zero_indexing {
        line_index
    } else {
        line_index + 1
    }
}

impl Editor {
    /// The number shown beside line `line_index`.
    pub fn line_number(&self, line_index: usize, style: &LineNumber) -> (r: usize)
        requires
            line_index < self.file_content@.len(),
        ensures
            r as int == shown_line_number(self.cursor_pos.y as int, line_index as int, *style),
    {
        let y = self.cursor_pos.y;
        if style.relative {
            if y >= line_index {
                y - line_index
            } else {
                line_index - y
            }
        } else if style.zero_indexing {
            line_index
        } else {
            let count = self.file_content.len();
            assert(line_index + 1 <= count);
            line_index + 1
        }
    }
}

} // verus!
