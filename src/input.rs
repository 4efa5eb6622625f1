//! Reading keys and text into edits and cursor moves, by mode.
use vstd::prelude::*;
use crate::buffer::{
    char_removed, inserted, lemma_lines_of, lines_of, merge_line, merged, remove_char, split_at_line, split_line, insert_text,
};
use crate::editor::{Editor, EditorMode, EditorView};
use crate::utils::{is_whitespace, is_ws};

verus! {

/// A key as the input layer reports it; keys that no mode reads are `Other`.
#[derive(Clone, Copy, Debug, PartialEq, Eq, Structural)]
pub enum Key {
    Right,
    Left,
    Semicolon,
    Insert,
    I,
    Escape,
    Backspace,
    Return,
    Other,
}

/// One input event.
pub enum InputEvent {
    /// Text typed by the user.
    TextInput(Vec<char>),
    /// A key pressed.
    KeyDown(Key),
    /// The window changed (resized, exposed, focused).
    Window,
    /// Anything else.
    Other,
}

/// The last column that horizontal movement stops on within a line.
pub open spec fn last_index(l: Seq<char>) -> int {
    if l.len() > 0 {
        l.len() - 1
    } else {
        0
    }
}

/// The first position from `x` on that holds whitespace, or `last` if none
/// comes before it.
pub open spec fn word_end(l: Seq<char>, x: int, last: int) -> int
    decreases last - x,
{
    if x < last && !is_ws(l[x]) {
        word_end(l, x + 1, last)
    } else {
        x
    }
}

/// Where the run of non-whitespace that ends just before `x` starts.
pub open spec fn word_start(l: Seq<char>, x: int) -> int
    decreases x,
{
    if x > 0 && !is_ws(l[x - 1]) {
        word_start(l, x - 1)
    } else {
        x
    }
}

/// Where the run of whitespace that ends just before `x` starts.
pub open spec fn space_start(l: Seq<char>, x: int) -> int
    decreases x,
{
    if x > 0 && is_ws(l[x - 1]) {
        space_start(l, x - 1)
    } else {
        x
    }
}

/// The state after the right arrow, by word when `word` holds.
pub open spec fn moved_right(v: EditorView, word: bool) -> EditorView {
    let l = v.current();
    let last = last_index(l);
    if v.column < last {
        if !word {
            v.at(v.line, v.column + 1)
        } else {
            let s = if is_ws(l[v.column]) {
                v.column + 1
            } else {
                v.column
            };
            v.at(v.line, word_end(l, s, last))
        }
    } else if v.line + 1 < v.lines.len() {
        v.at(v.line + 1, 0)
    } else {
        v
    }
}

/// The state after the left arrow, by word when `word` holds.
pub open spec fn moved_left(v: EditorView, word: bool) -> EditorView {
    let l = v.current();
    if v.column > 0 {
        if !word {
            v.at(v.line, v.column - 1)
        } else {
            let s = if is_ws(l[v.column - 1]) {
                v.column - 1
            } else {
                v.column
            };
            v.at(v.line, word_start(l, s))
        }
    } else if v.line > 0 {
        v.at(v.line - 1, v.lines[v.line - 1].len() as int)
    } else {
        v
    }
}

/// The state after deleting the whitespace just left of the cursor and then the
/// word before it.
pub open spec fn word_deleted(v: EditorView) -> EditorView {
    let l = v.current();
    let b = word_start(l, space_start(l, v.column));
    v.edited(v.lines.update(v.line, l.take(b) + l.skip(v.column)), v.line, b)
}

/// The state after backspace, deleting a word when `word` holds.
pub open spec fn backspaced(v: EditorView, word: bool) -> EditorView {
    if v.line == 0 && v.column == 0 {
        v
    } else if word {
        word_deleted(v)
    } else if v.column == 0 {
        v.edited(merged(v.lines, v.line), v.line - 1, v.lines[v.line - 1].len() as int)
    } else {
        v.edited(char_removed(v.lines, v.line, v.column), v.line, v.column - 1)
    }
}

/// The state after Return: the line is cut at the cursor, which moves to the
/// start of the new line.
pub open spec fn returned(v: EditorView) -> EditorView {
    v.edited(split_at_line(v.lines, v.line, v.column), v.line + 1, 0)
}

/// The state after `text` is typed: in Insert mode it goes in at the cursor,
/// which moves past it; in other modes nothing changes.
pub open spec fn typed(v: EditorView, text: Seq<char>) -> EditorView {
    if v.mode == EditorMode::Insert {
        v.edited(
            v.lines.update(v.line, inserted(v.current(), v.column, text)),
            v.line,
            v.column + text.len(),
        )
    } else {
        v
    }
}

/// The state after a key in Normal mode, and whether the view must be redrawn.
pub open spec fn normal_key(v: EditorView, key: Key, ctrl: bool, shift: bool) -> (EditorView, bool) {
    match key {
        Key::Right => (moved_right(v, ctrl), true),
        Key::Left => (moved_left(v, ctrl), true),
        Key::Semicolon => if shift {
            (v.in_mode(EditorMode::Command), true)
        } else {
            (v, false)
        },
        Key::Insert | Key::I => (v.in_mode(EditorMode::Insert), true),
        _ => (v, false),
    }
}

/// The state after a key in Insert mode, and whether the view must be redrawn.
pub open spec fn insert_key(v: EditorView, key: Key, ctrl: bool) -> (EditorView, bool) {
    match key {
        Key::Escape => (v.in_mode(EditorMode::Normal), true),
        Key::Backspace => (backspaced(v, ctrl), !(v.line == 0 && v.column == 0)),
        Key::Right => (moved_right(v, ctrl), true),
        Key::Left => (moved_left(v, ctrl), true),
        Key::Return => (returned(v), true),
        _ => (v, false),
    }
}

/// The state after one event, and whether the view must be redrawn.
pub open spec fn event_step(v: EditorView, e: InputEvent, ctrl: bool, shift: bool) -> (
    EditorView,
    bool,
) {
    match e {
        InputEvent::TextInput(t) => (typed(v, t@), true),
        InputEvent::KeyDown(k) => match v.mode {
            EditorMode::Insert => insert_key(v, k, ctrl),
            EditorMode::Normal => normal_key(v, k, ctrl, shift),
            _ => (v, false),
        },
        InputEvent::Window => (v, true),
        InputEvent::Other => (v, false),
    }
}

/// The state after a batch of events applied in order, and whether any of them
/// asks for a redraw.
pub open spec fn events_step(v: EditorView, es: Seq<InputEvent>, ctrl: bool, shift: bool) -> (
    EditorView,
    bool,
)
    decreases es.len(),
{
    if es.len() == 0 {
        (v, false)
    } else {
        let (w, c) = events_step(v, es.drop_last(), ctrl, shift);
        let (u, d) = event_step(w, es.last(), ctrl, shift);
        (u, c || d)
    }
}

/// `word_end` stops on the first whitespace from `x` on, or on `last` where
/// none comes before it.
pub proof fn lemma_word_end(l: Seq<char>, x: int, last: int)
    requires
        0 <= x <= last <= l.len(),
    ensures
        x <= word_end(l, x, last) <= last,
        word_end(l, x, last) == last || is_ws(l[word_end(l, x, last)]),
        forall|k: int| x <= k < word_end(l, x, last) ==> !is_ws(#[trigger] l[k]),
    decreases last - x,
{
    if x < last && !is_ws(l[x]) {
        lemma_word_end(l, x + 1, last);
    }
}

/// `word_start` goes back over non-whitespace only, and stops at the start of
/// the line or just after whitespace.
pub proof fn lemma_word_start(l: Seq<char>, x: int)
    requires
        0 <= x <= l.len(),
    ensures
        0 <= word_start(l, x) <= x,
        word_start(l, x) == 0 || is_ws(l[word_start(l, x) - 1]),
        forall|k: int| word_start(l, x) <= k < x ==> !is_ws(#[trigger] l[k]),
    decreases x,
{
    if x > 0 && !is_ws(l[x - 1]) {
        lemma_word_start(l, x - 1);
    }
}

/// `space_start` goes back over whitespace only, and stops at the start of the
/// line or just after another character.
pub proof fn lemma_space_start(l: Seq<char>, x: int)
    requires
        0 <= x <= l.len(),
    ensures
        0 <= space_start(l, x) <= x,
        space_start(l, x) == 0 || !is_ws(l[space_start(l, x) - 1]),
        forall|k: int| space_start(l, x) <= k < x ==> is_ws(#[trigger] l[k]),
    decreases x,
{
    if x > 0 && is_ws(l[x - 1]) {
        lemma_space_start(l, x - 1);
    }
}

/// Moves the cursor right, by word when `is_ctrl_pressed`; at the end of a line
/// it goes to the start of the next one.
pub fn handle_right_arrow(editor: &mut Editor, is_ctrl_pressed: bool)
    requires
        old(editor)@.wf(),
    ensures
        final(editor)@ == moved_right(old(editor)@, is_ctrl_pressed),
        final(editor)@.wf(),
{
    let ghost l = editor@.current();
    let y = editor.cursor_pos.y;
    let count = editor.file_content.len();
    let n = editor.file_content[y].len();
    let line_len: usize = if n > 0 {
        n - 1
    } else {
        0
    };
    let x = editor.cursor_pos.x;
    if x < line_len {
        if !is_ctrl_pressed {
            editor.cursor_pos.x = x + 1;
            return;
        }
        let mut x = x;
        if is_whitespace(&editor.file_content[y], x) {
            x = x + 1;
        }
        let ghost s = x as int;
        proof {
            lemma_word_end(l, s, line_len as int);
        }
        while x < line_len && !is_whitespace(&editor.file_content[y], x)
            invariant
                s <= x <= line_len,
                line_len < n,
                y < editor.file_content@.len(),
                editor.file_content@[y as int]@ == l,
                n == l.len(),
                editor@ == old(editor)@,
                word_end(l, x as int, line_len as int) == word_end(l, s, line_len as int),
            decreases line_len - x,
        {
            x = x + 1;
        }
        editor.cursor_pos.x = x;
    } else if y + 1 < count {
        editor.cursor_pos.y = y + 1;
        editor.cursor_pos.x = 0;
    }
}

/// Moves the cursor left, by word when `is_ctrl_pressed`; at the start of a line
/// it goes to the end of the line before.
pub fn handle_left_arrow(editor: &mut Editor, is_ctrl_pressed: bool)
    requires
        old(editor)@.wf(),
    ensures
        final(editor)@ == moved_left(old(editor)@, is_ctrl_pressed),
        final(editor)@.wf(),
{
    let ghost l = editor@.current();
    let y = editor.cursor_pos.y;
    let x = editor.cursor_pos.x;
    if x > 0 {
        if !is_ctrl_pressed {
            editor.cursor_pos.x = x - 1;
            return;
        }
        let mut x = x;
        if is_whitespace(&editor.file_content[y], x - 1) {
            x = x - 1;
        }
        let ghost s = x as int;
        proof {
            lemma_word_start(l, s);
        }
        while x > 0 && !is_whitespace(&editor.file_content[y], x - 1)
            invariant
                x <= s <= l.len(),
                y < editor.file_content@.len(),
                editor.file_content@[y as int]@ == l,
                editor@ == old(editor)@,
                word_start(l, x as int) == word_start(l, s),
            decreases x,
        {
            x = x - 1;
        }
        editor.cursor_pos.x = x;
    } else if y > 0 {
        editor.cursor_pos.y = y - 1;
        editor.cursor_pos.x = editor.file_content[y - 1].len();
    }
}

/// Inserts a line break at the cursor and moves to the start of the new line.
pub fn handle_return(editor: &mut Editor)
    requires
        old(editor)@.wf(),
    ensures
        final(editor)@ == returned(old(editor)@),
        final(editor)@.wf(),
{
    let y = editor.cursor_pos.y;
    let count = editor.file_content.len();
    proof {
        lemma_lines_of(editor.file_content@);
    }
    split_line(&mut editor.file_content, y, editor.cursor_pos.x);
    editor.cursor_pos.x = 0;
    editor.cursor_pos.y = y + 1;
}

/// Deletes the whitespace just left of the cursor, then the word before it.
pub fn handle_ctrl_backspace(editor: &mut Editor)
    requires
        old(editor)@.wf(),
    ensures
        final(editor)@ == word_deleted(old(editor)@),
        final(editor)@.wf(),
{
    let ghost v = editor@;
    let ghost l = v.current();
    let ghost x0 = v.column;
    let y = editor.cursor_pos.y;
    proof {
        lemma_space_start(l, x0);
        lemma_lines_of(editor.file_content@);
        assert(l.take(x0) + l.skip(x0) =~= l);
        assert(v.lines.update(y as int, l.take(x0) + l.skip(x0)) =~= v.lines);
    }
    while editor.cursor_pos.x > 0 && is_whitespace(
        &editor.file_content[y],
        editor.cursor_pos.x - 1,
    )
        invariant
            y == editor.cursor_pos.y,
            editor.cursor_pos.x <= x0,
            editor@ == v.edited(
                v.lines.update(y as int, l.take(editor.cursor_pos.x as int) + l.skip(x0)),
                y as int,
                editor.cursor_pos.x as int,
            ),
            space_start(l, editor.cursor_pos.x as int) == space_start(l, x0),
            v.wf(),
            v.line == y,
            l == v.lines[y as int],
            0 <= x0 <= l.len(),
            editor.file_content@.len() == v.lines.len(),
            editor.file_content@[y as int]@ == l.take(editor.cursor_pos.x as int) + l.skip(x0),
        decreases editor.cursor_pos.x,
    {
        let x = editor.cursor_pos.x;
        proof {
            lemma_lines_of(editor.file_content@);
            assert((l.take(x as int) + l.skip(x0))[x - 1] == l[x - 1]);
        }
        remove_char(&mut editor.file_content, y, x);
        editor.cursor_pos.x = x - 1;
        assert((l.take(x as int) + l.skip(x0)).remove(x - 1) =~= l.take(x - 1) + l.skip(x0));
        proof {
            lemma_lines_of(editor.file_content@);
            assert(editor@.lines =~= v.lines.update(y as int, l.take(x - 1) + l.skip(x0)));
            assert(lines_of(editor.file_content@)[y as int] == editor.file_content@[y as int]@);
        }
    }
    let ghost a = editor.cursor_pos.x as int;
    proof {
        lemma_word_start(l, a);
    }
    while editor.cursor_pos.x > 0 && !is_whitespace(
        &editor.file_content[y],
        editor.cursor_pos.x - 1,
    )
        invariant
            y == editor.cursor_pos.y,
            editor.cursor_pos.x <= a <= x0,
            a == space_start(l, x0),
            editor@ == v.edited(
                v.lines.update(y as int, l.take(editor.cursor_pos.x as int) + l.skip(x0)),
                y as int,
                editor.cursor_pos.x as int,
            ),
            word_start(l, editor.cursor_pos.x as int) == word_start(l, a),
            v.wf(),
            v.line == y,
            l == v.lines[y as int],
            0 <= x0 <= l.len(),
            editor.file_content@.len() == v.lines.len(),
            editor.file_content@[y as int]@ == l.take(editor.cursor_pos.x as int) + l.skip(x0),
        decreases editor.cursor_pos.x,
    {
        let x = editor.cursor_pos.x;
        proof {
            lemma_lines_of(editor.file_content@);
            assert((l.take(x as int) + l.skip(x0))[x - 1] == l[x - 1]);
        }
        remove_char(&mut editor.file_content, y, x);
        editor.cursor_pos.x = x - 1;
        assert((l.take(x as int) + l.skip(x0)).remove(x - 1) =~= l.take(x - 1) + l.skip(x0));
        proof {
            lemma_lines_of(editor.file_content@);
            assert(editor@.lines =~= v.lines.update(y as int, l.take(x - 1) + l.skip(x0)));
            assert(lines_of(editor.file_content@)[y as int] == editor.file_content@[y as int]@);
        }
    }
}

/// Backspace: nothing at the start of the buffer; with `is_ctrl_pressed` the
/// word before the cursor goes; at the start of a line, the line joins the one
/// before; else the character before the cursor goes. Returns whether anything
/// changed.
pub fn handle_backspace(editor: &mut Editor, is_ctrl_pressed: bool) -> (r: bool)
    requires
        old(editor)@.wf(),
    ensures
        final(editor)@ == backspaced(old(editor)@, is_ctrl_pressed),
        r == !(old(editor)@.line == 0 && old(editor)@.column == 0),
        final(editor)@.wf(),
{
    if editor.cursor_pos.is_zero() {
        return false;
    }
    if is_ctrl_pressed {
        handle_ctrl_backspace(editor);
        return true;
    }
    let y = editor.cursor_pos.y;
    let x = editor.cursor_pos.x;
    if x == 0 && y > 0 {
        let column = merge_line(&mut editor.file_content, y);
        editor.cursor_pos.y = y - 1;
        editor.cursor_pos.x = column;
        return true;
    }
    remove_char(&mut editor.file_content, y, x);
    editor.cursor_pos.x = x - 1;
    true
}

/// Types `text` at the cursor when in Insert mode.
pub fn handle_text_input(editor: &mut Editor, text: &Vec<char>)
    requires
        old(editor)@.wf(),
    ensures
        final(editor)@ == typed(old(editor)@, text@),
        final(editor)@.wf(),
{
    if editor.editor_mode == EditorMode::Insert {
        let y = editor.cursor_pos.y;
        let x = editor.cursor_pos.x;
        proof {
            lemma_lines_of(editor.file_content@);
        }
        insert_text(&mut editor.file_content, y, x, text);
        proof {
            lemma_lines_of(editor.file_content@);
        }
        let n = editor.file_content[y].len();
        assert(lines_of(editor.file_content@)[y as int] == editor.file_content@[y as int]@);
        assert(x + text@.len() <= n);
        editor.cursor_pos.x = x + text.len();
    }
}

/// Reads a key in Normal mode: arrows move, shift + `;` enters Command mode,
/// `i` or Insert enters Insert mode. Returns whether the view must be redrawn.
pub fn input_handler_normal_mode(
    editor: &mut Editor,
    scancode: Key,
    is_ctrl_pressed: bool,
    is_shift_pressed: bool,
) -> (r: bool)
    requires
        old(editor)@.wf(),
    ensures
        (final(editor)@, r) == normal_key(old(editor)@, scancode, is_ctrl_pressed, is_shift_pressed),
        final(editor)@.wf(),
{
    match scancode {
        Key::Right => {
            handle_right_arrow(editor, is_ctrl_pressed);
            true
        },
        Key::Left => {
            handle_left_arrow(editor, is_ctrl_pressed);
            true
        },
        Key::Semicolon => {
            if is_shift_pressed {
                editor.editor_mode = EditorMode::Command;
                true
            } else {
                false
            }
        },
        Key::Insert | Key::I => {
            editor.editor_mode = EditorMode::Insert;
            true
        },
        _ => false,
    }
}

/// Reads a key in Insert mode: Escape goes back to Normal mode, Backspace and
/// Return edit, arrows move. Returns whether the view must be redrawn.
pub fn input_handler_insert_mode(editor: &mut Editor, scancode: Key, is_ctrl_pressed: bool) -> (r:
    bool)
    requires
        old(editor)@.wf(),
    ensures
        (final(editor)@, r) == insert_key(old(editor)@, scancode, is_ctrl_pressed),
        final(editor)@.wf(),
{
    match scancode {
        Key::Escape => {
            editor.editor_mode = EditorMode::Normal;
            true
        },
        Key::Backspace => handle_backspace(editor, is_ctrl_pressed),
        Key::Right => {
            handle_right_arrow(editor, is_ctrl_pressed);
            true
        },
        Key::Left => {
            handle_left_arrow(editor, is_ctrl_pressed);
            true
        },
        Key::Return => {
            handle_return(editor);
            true
        },
        _ => false,
    }
}

/// Applies one event to the editor. Returns whether the view must be redrawn.
pub fn handle_event(
    editor: &mut Editor,
    event: &InputEvent,
    is_ctrl_pressed: bool,
    is_shift_pressed: bool,
) -> (r: bool)
    requires
        old(editor)@.wf(),
    ensures
        (final(editor)@, r) == event_step(old(editor)@, *event, is_ctrl_pressed, is_shift_pressed),
        final(editor)@.wf(),
{
    match event {
        InputEvent::TextInput(text) => {
            handle_text_input(editor, text);
            true
        },
        InputEvent::KeyDown(scancode) => match editor.editor_mode {
            EditorMode::Insert => input_handler_insert_mode(editor, *scancode, is_ctrl_pressed),
            EditorMode::Normal => input_handler_normal_mode(
                editor,
                *scancode,
                is_ctrl_pressed,
                is_shift_pressed,
            ),
            _ => false,
        },
        InputEvent::Window => true,
        InputEvent::Other => false,
    }
}

/// Applies a batch of events in order, with the modifier keys as they were
/// when the batch was read. Returns whether any of them asks for a redraw.
pub fn event_handler(
    editor: &mut Editor,
    events: &Vec<InputEvent>,
    is_ctrl_pressed: bool,
    is_shift_pressed: bool,
) -> (changed: bool)
    requires
        old(editor)@.wf(),
    ensures
        (final(editor)@, changed) == events_step(
            old(editor)@,
            events@,
            is_ctrl_pressed,
            is_shift_pressed,
        ),
        final(editor)@.wf(),
{
    let mut changed = false;
    let mut i: usize = 0;
    while i < events.len()
        invariant
            i <= events@.len(),
            editor@.wf(),
            (editor@, changed) == events_step(
                old(editor)@,
                events@.take(i as int),
                is_ctrl_pressed,
                is_shift_pressed,
            ),
        decreases events@.len() - i,
    {
        assert(events@.take(i + 1).drop_last() =~= events@.take(i as int));
        let step = handle_event(editor, &events[i], is_ctrl_pressed, is_shift_pressed);
        changed = changed || step;
        i = i + 1;
    }
    assert(events@.take(i as int) =~= events@);
    changed
}

/// Backspace at the start of a line other than the first joins it to the line
/// before: one line fewer, and the cursor where the two now meet.
pub proof fn lemma_backspace_merges(v: EditorView)
    requires
        v.wf(),
        v.column == 0,
        v.line > 0,
    ensures
        backspaced(v, false).lines.len() == v.lines.len() - 1,
        backspaced(v, false).lines[v.line - 1] == v.lines[v.line - 1] + v.lines[v.line],
        backspaced(v, false).line == v.line - 1,
        backspaced(v, false).column == v.lines[v.line - 1].len(),
        insert_key(v, Key::Backspace, false).0 == backspaced(v, false),
        insert_key(v, Key::Backspace, false).1,
{
}

/// At the end of a line that has a line after it, the right arrow goes to the
/// start of that next line.
pub proof fn lemma_right_wraps(v: EditorView, word: bool)
    requires
        v.wf(),
        v.column == v.current().len(),
        v.line + 1 < v.lines.len(),
    ensures
        moved_right(v, word).line == v.line + 1,
        moved_right(v, word).column == 0,
        moved_right(v, word).lines == v.lines,
{
}

/// Word-right from before the last column stays on the line and stops on the
/// first whitespace or on the last column, whichever comes first; when the
/// cursor starts on whitespace, that one character is passed over first.
pub proof fn lemma_word_right(v: EditorView)
    requires
        v.wf(),
        v.column < last_index(v.current()),
    ensures
        ({
            let l = v.current();
            let last = last_index(l);
            let s = if is_ws(l[v.column]) {
                v.column + 1
            } else {
                v.column
            };
            let r = moved_right(v, true).column;
            &&& moved_right(v, true).line == v.line
            &&& s <= r <= last
            &&& r == last || is_ws(l[r])
            &&& forall|k: int| s <= k < r ==> !is_ws(#[trigger] l[k])
        }),
{
    let l = v.current();
    let s = if is_ws(l[v.column]) {
        v.column + 1
    } else {
        v.column
    };
    lemma_word_end(l, s, last_index(l));
}

/// Return cuts the line in two whose concatenation is the old line, and moves
/// the cursor to the start of the second.
pub proof fn lemma_return_splits(v: EditorView)
    requires
        v.wf(),
    ensures
        returned(v).lines.len() == v.lines.len() + 1,
        returned(v).lines[v.line] + returned(v).lines[v.line + 1] == v.current(),
        returned(v).line == v.line + 1,
        returned(v).column == 0,
        forall|k: int| 0 <= k < v.line ==> returned(v).lines[k] == v.lines[k],
        forall|k: int| v.line < k < v.lines.len() ==> returned(v).lines[k + 1] == v.lines[k],
{
    let l = v.current();
    assert(l.take(v.column) + l.skip(v.column) =~= l);
}

} // verus!
