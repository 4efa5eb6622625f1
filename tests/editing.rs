use texed::buffer::{insert_text, merge_line, remove_char, split_line};
use texed::editor::{CursorPos, Editor, EditorMode};
use texed::input::{
    event_handler, handle_backspace, handle_ctrl_backspace, handle_event, handle_left_arrow,
    handle_return, handle_right_arrow, handle_text_input, input_handler_insert_mode,
    input_handler_normal_mode, InputEvent, Key,
};
use texed::parse_config::LineNumber;
use texed::utils::{is_whitespace, is_whitespace_char};

fn chars(s: &str) -> Vec<char> {
    s.chars().collect()
}

fn editor(lines: &[&str], y: usize, x: usize, mode: EditorMode) -> Editor {
    Editor {
        file_content: lines.iter().map(|l| chars(l)).collect(),
        cursor_pos: CursorPos { x, y, max_x: 0 },
        scroll_offset: 0,
        editor_mode: mode,
    }
}

fn text(e: &Editor) -> Vec<String> {
    e.file_content.iter().map(|l| l.iter().collect()).collect()
}

#[test]
fn init_appends_sentinel_to_each_line() {
    let e = Editor::init("foo\nbar");
    assert_eq!(text(&e), vec!["foo ", "bar "]);
    assert_eq!((e.cursor_pos.y, e.cursor_pos.x, e.cursor_pos.max_x), (0, 0, 0));
    assert_eq!(e.scroll_offset, 0);
    assert_eq!(e.editor_mode, EditorMode::Normal);
}

#[test]
fn init_empty_text_gives_one_blank_line() {
    let e = Editor::init("");
    assert_eq!(text(&e), vec![" "]);
}

#[test]
fn init_handles_crlf_and_final_newline() {
    let e = Editor::init("a\r\nb\n\nc\n");
    assert_eq!(text(&e), vec!["a ", "b ", " ", "c "]);
    let e = Editor::init("\n");
    assert_eq!(text(&e), vec![" "]);
    let e = Editor::init("x\r");
    assert_eq!(text(&e), vec!["x\r "]);
}

#[test]
fn cursor_is_zero_only_at_origin() {
    assert!(CursorPos { x: 0, y: 0, max_x: 3 }.is_zero());
    assert!(!CursorPos { x: 1, y: 0, max_x: 0 }.is_zero());
    assert!(!CursorPos { x: 0, y: 1, max_x: 0 }.is_zero());
}

#[test]
fn whitespace_classification() {
    assert!(is_whitespace_char(' '));
    assert!(is_whitespace_char('\t'));
    assert!(is_whitespace_char('\u{3000}'));
    assert!(!is_whitespace_char('a'));
    assert!(!is_whitespace_char('\u{200b}'));
    let l = chars("a b");
    assert!(!is_whitespace(&l, 0));
    assert!(is_whitespace(&l, 1));
}

#[test]
fn buffer_operations() {
    let mut b = vec![chars("ab "), chars("cd ")];
    insert_text(&mut b, 0, 1, &chars("XY"));
    assert_eq!(b[0], chars("aXYb "));
    remove_char(&mut b, 0, 3);
    assert_eq!(b[0], chars("aXb "));
    split_line(&mut b, 0, 2);
    assert_eq!(b, vec![chars("aX"), chars("b "), chars("cd ")]);
    let at = merge_line(&mut b, 1);
    assert_eq!(at, 2);
    assert_eq!(b, vec![chars("aXb "), chars("cd ")]);
}

#[test]
fn insert_then_backspace_restores_buffer() {
    let mut e = editor(&["hello ", "x "], 0, 2, EditorMode::Insert);
    let before = e.file_content.clone();
    handle_text_input(&mut e, &chars("abc"));
    assert_eq!(text(&e), vec!["heabcllo ", "x "]);
    assert_eq!(e.cursor_pos.x, 5);
    for _ in 0..3 {
        assert!(handle_backspace(&mut e, false));
    }
    assert_eq!(e.file_content, before);
    assert_eq!((e.cursor_pos.y, e.cursor_pos.x), (0, 2));
}

#[test]
fn text_input_ignored_outside_insert_mode() {
    let mut e = editor(&["ab "], 0, 1, EditorMode::Normal);
    assert!(handle_event(&mut e, &InputEvent::TextInput(chars("z")), false, false));
    assert_eq!(text(&e), vec!["ab "]);
    assert_eq!(e.cursor_pos.x, 1);
}

#[test]
fn backspace_at_line_start_merges() {
    let mut e = editor(&["ab", "cd"], 1, 0, EditorMode::Insert);
    assert!(handle_backspace(&mut e, false));
    assert_eq!(text(&e), vec!["abcd"]);
    assert_eq!((e.cursor_pos.y, e.cursor_pos.x), (0, 2));
}

#[test]
fn backspace_merges_loaded_lines() {
    let mut e = Editor::init("ab\ncd\nef");
    e.cursor_pos.y = 1;
    assert!(handle_backspace(&mut e, false));
    assert_eq!(text(&e), vec!["ab cd ", "ef "]);
    assert_eq!((e.cursor_pos.y, e.cursor_pos.x), (0, 3));
}

#[test]
fn backspace_at_origin_does_nothing() {
    let mut e = editor(&["ab "], 0, 0, EditorMode::Insert);
    assert!(!handle_backspace(&mut e, false));
    assert!(!handle_backspace(&mut e, true));
    assert_eq!(text(&e), vec!["ab "]);
    assert_eq!((e.cursor_pos.y, e.cursor_pos.x), (0, 0));
}

#[test]
fn backspace_removes_previous_char() {
    let mut e = editor(&["abc "], 0, 2, EditorMode::Insert);
    assert!(handle_backspace(&mut e, false));
    assert_eq!(text(&e), vec!["ac "]);
    assert_eq!(e.cursor_pos.x, 1);
}

#[test]
fn word_backspace_deletes_word() {
    let mut e = editor(&["hello world "], 0, 5, EditorMode::Insert);
    assert!(handle_backspace(&mut e, true));
    assert_eq!(text(&e), vec![" world "]);
    assert_eq!((e.cursor_pos.y, e.cursor_pos.x), (0, 0));
}

#[test]
fn word_backspace_eats_spaces_then_word() {
    let mut e = editor(&["one two   three "], 0, 10, EditorMode::Insert);
    handle_ctrl_backspace(&mut e);
    assert_eq!(text(&e), vec!["one three "]);
    assert_eq!(e.cursor_pos.x, 4);
}

#[test]
fn word_backspace_at_line_start_keeps_lines() {
    let mut e = editor(&["ab ", "cd "], 1, 0, EditorMode::Insert);
    assert!(handle_backspace(&mut e, true));
    assert_eq!(text(&e), vec!["ab ", "cd "]);
    assert_eq!((e.cursor_pos.y, e.cursor_pos.x), (1, 0));
}

#[test]
fn right_arrow_steps_and_wraps() {
    let mut e = editor(&["ab ", "cd "], 0, 0, EditorMode::Normal);
    handle_right_arrow(&mut e, false);
    assert_eq!((e.cursor_pos.y, e.cursor_pos.x), (0, 1));
    handle_right_arrow(&mut e, false);
    assert_eq!((e.cursor_pos.y, e.cursor_pos.x), (0, 2));
    handle_right_arrow(&mut e, false);
    assert_eq!((e.cursor_pos.y, e.cursor_pos.x), (1, 0));
}

#[test]
fn right_arrow_at_line_end_wraps() {
    let mut e = editor(&["ab ", "cd "], 0, 3, EditorMode::Insert);
    handle_right_arrow(&mut e, true);
    assert_eq!((e.cursor_pos.y, e.cursor_pos.x), (1, 0));
}

#[test]
fn right_arrow_on_last_line_end_stays() {
    let mut e = editor(&["ab "], 0, 2, EditorMode::Normal);
    handle_right_arrow(&mut e, false);
    assert_eq!((e.cursor_pos.y, e.cursor_pos.x), (0, 2));
}

#[test]
fn right_arrow_on_empty_line_wraps() {
    let mut e = editor(&["", "x "], 0, 0, EditorMode::Normal);
    handle_right_arrow(&mut e, false);
    assert_eq!((e.cursor_pos.y, e.cursor_pos.x), (1, 0));
}

#[test]
fn word_right_stops_on_whitespace() {
    let mut e = editor(&["hello world foo "], 0, 1, EditorMode::Normal);
    handle_right_arrow(&mut e, true);
    assert_eq!(e.cursor_pos.x, 5);
    handle_right_arrow(&mut e, true);
    assert_eq!(e.cursor_pos.x, 11);
    handle_right_arrow(&mut e, true);
    assert_eq!(e.cursor_pos.x, 15);
}

#[test]
fn word_right_passes_one_space_only() {
    let mut e = editor(&["a  b "], 0, 1, EditorMode::Normal);
    handle_right_arrow(&mut e, true);
    assert_eq!(e.cursor_pos.x, 2);
}

#[test]
fn left_arrow_steps_words_and_wraps() {
    let mut e = editor(&["ab ", "hello world "], 1, 8, EditorMode::Normal);
    handle_left_arrow(&mut e, true);
    assert_eq!(e.cursor_pos.x, 6);
    handle_left_arrow(&mut e, true);
    assert_eq!(e.cursor_pos.x, 0);
    handle_left_arrow(&mut e, false);
    assert_eq!((e.cursor_pos.y, e.cursor_pos.x), (0, 3));
    handle_left_arrow(&mut e, false);
    assert_eq!((e.cursor_pos.y, e.cursor_pos.x), (0, 2));
}

#[test]
fn left_arrow_at_origin_stays() {
    let mut e = editor(&["ab "], 0, 0, EditorMode::Normal);
    handle_left_arrow(&mut e, true);
    assert_eq!((e.cursor_pos.y, e.cursor_pos.x), (0, 0));
}

#[test]
fn return_splits_line() {
    let mut e = editor(&["x ", "hello world ", "y "], 1, 5, EditorMode::Insert);
    handle_return(&mut e);
    assert_eq!(text(&e), vec!["x ", "hello", " world ", "y "]);
    assert_eq!((e.cursor_pos.y, e.cursor_pos.x), (2, 0));
    let joined: String = text(&e)[1].clone() + &text(&e)[2];
    assert_eq!(joined, "hello world ");
}

#[test]
fn mode_transitions() {
    let mut e = editor(&["ab "], 0, 0, EditorMode::Normal);
    assert!(input_handler_normal_mode(&mut e, Key::Semicolon, false, true));
    assert_eq!(e.editor_mode, EditorMode::Command);

    let mut e = editor(&["ab "], 0, 0, EditorMode::Normal);
    assert!(!input_handler_normal_mode(&mut e, Key::Semicolon, false, false));
    assert_eq!(e.editor_mode, EditorMode::Normal);
    input_handler_normal_mode(&mut e, Key::I, false, false);
    assert_eq!(e.editor_mode, EditorMode::Insert);
    assert!(input_handler_insert_mode(&mut e, Key::Escape, false));
    assert_eq!(e.editor_mode, EditorMode::Normal);
    input_handler_normal_mode(&mut e, Key::Insert, false, false);
    assert_eq!(e.editor_mode, EditorMode::Insert);
}

#[test]
fn unhandled_keys_change_nothing() {
    let mut e = editor(&["ab "], 0, 1, EditorMode::Normal);
    assert!(!input_handler_normal_mode(&mut e, Key::Backspace, false, false));
    assert!(!input_handler_normal_mode(&mut e, Key::Escape, false, false));
    assert_eq!(text(&e), vec!["ab "]);
    assert_eq!(e.editor_mode, EditorMode::Normal);
    for mode in [EditorMode::Visual, EditorMode::Replace, EditorMode::Command] {
        let mut e = editor(&["ab "], 0, 1, mode);
        assert!(!handle_event(&mut e, &InputEvent::KeyDown(Key::Backspace), false, false));
        assert!(!handle_event(&mut e, &InputEvent::KeyDown(Key::Escape), false, false));
        assert_eq!(text(&e), vec!["ab "]);
        assert_eq!(e.cursor_pos.x, 1);
        assert_eq!(e.editor_mode, mode);
    }
}

#[test]
fn batch_of_events_applies_in_order() {
    let mut e = Editor::init("ab");
    let events = vec![
        InputEvent::KeyDown(Key::I),
        InputEvent::TextInput(chars("xy")),
        InputEvent::KeyDown(Key::Return),
        InputEvent::KeyDown(Key::Escape),
        InputEvent::Other,
    ];
    assert!(event_handler(&mut e, &events, false, false));
    assert_eq!(text(&e), vec!["xy", "ab "]);
    assert_eq!((e.cursor_pos.y, e.cursor_pos.x), (1, 0));
    assert_eq!(e.editor_mode, EditorMode::Normal);
}

#[test]
fn batch_without_change_reports_none() {
    let mut e = Editor::init("ab");
    let events = vec![InputEvent::Other, InputEvent::KeyDown(Key::Escape)];
    assert!(!event_handler(&mut e, &events, false, false));
    assert!(event_handler(&mut e, &vec![InputEvent::Window], false, false));
    assert!(!event_handler(&mut e, &vec![], false, false));
}

#[test]
fn line_numbers() {
    let mut e = Editor::init("a\nb\nc\nd");
    e.cursor_pos.y = 2;
    let abs1 = LineNumber { relative: false, zero_indexing: false };
    let abs0 = LineNumber { relative: false, zero_indexing: true };
    let rel = LineNumber { relative: true, zero_indexing: false };
    assert_eq!(e.line_number(0, &abs1), 1);
    assert_eq!(e.line_number(0, &abs0), 0);
    assert_eq!(e.line_number(0, &rel), 2);
    assert_eq!(e.line_number(3, &rel), 1);
    assert_eq!(e.line_number(2, &rel), 0);
}
