use modal_input::input::{Input, InputEvent, InputOpt, Position, Rect};
use modal_input::snap::{InputMode, InputOp};
use modal_input::snaps::InputSnaps;

fn shown(value: &str) -> Input {
    let mut ed = Input::new();
    ed.show(InputOpt {
        title: "t".to_string(),
        value: value.to_string(),
        position: Position::Coords(0, 0),
    });
    ed
}

fn text_of(v: &[char]) -> String {
    v.iter().collect()
}

#[test]
fn forward_word_start_and_end() {
    let mut ed = shown("hello world");
    ed.escape();
    assert_eq!(ed.snaps.current.cursor, 0);
    ed.forward(false);
    assert_eq!(ed.snaps.current.cursor, 6);
    ed.forward(true);
    assert_eq!(ed.snaps.current.cursor, 10);
}

#[test]
fn forward_stops_at_punctuation() {
    let mut ed = shown("foo.bar");
    ed.escape();
    ed.forward(false);
    assert_eq!(ed.snaps.current.cursor, 3);
}

#[test]
fn backward_lands_on_word_start() {
    let mut ed = shown("hello world");
    ed.escape();
    ed.move_(100);
    assert_eq!(ed.snaps.current.cursor, 10);
    ed.backward();
    assert_eq!(ed.snaps.current.cursor, 6);
    ed.backward();
    assert_eq!(ed.snaps.current.cursor, 0);
}

#[test]
fn delete_twice_clears_buffer_and_tags_once() {
    let mut ed = shown("hello world");
    ed.escape();
    let depth = ed.snaps.versions.len();
    assert!(!ed.delete(false));
    assert_eq!(ed.snaps.versions.len(), depth);
    assert!(ed.delete(false));
    assert_eq!(ed.snaps.versions.len(), depth + 1);
    assert_eq!(ed.text(), "");
    assert_eq!(ed.snaps.current.cursor, 0);
    assert_eq!(ed.mode(), InputMode::Normal);
    assert!(ed.snaps.undo());
    assert_eq!(ed.text(), "hello world");
}

#[test]
fn paste_before_cursor() {
    let mut ed = shown("x");
    let clip: Vec<char> = "ab".chars().collect();
    assert!(ed.paste(true, &clip));
    assert_eq!(ed.text(), "abx");
    assert_eq!(ed.mode(), InputMode::Normal);
    assert_eq!(ed.snaps.current.cursor, 1);
}

#[test]
fn paste_empty_clipboard_is_noop() {
    let mut ed = shown("x");
    let clip: Vec<char> = Vec::new();
    assert!(!ed.paste(true, &clip));
    assert_eq!(ed.text(), "x");
}

#[test]
fn tag_undo_redo_round_trip() {
    let mut st = InputSnaps::new();
    st.reset("ab".chars().collect());
    st.current.value.push('x');
    st.current.cursor = 3;
    st.tag();
    assert!(st.undo());
    assert_eq!(text_of(&st.current.value), "ab");
    assert_eq!(st.current.cursor, 0);
    assert!(st.redo());
    assert_eq!(text_of(&st.current.value), "abx");
    assert_eq!(st.current.cursor, 3);
}

#[test]
fn undo_at_history_start_fails() {
    let mut st = InputSnaps::new();
    st.reset("ab".chars().collect());
    assert!(!st.undo());
    assert!(!st.redo());
    assert_eq!(text_of(&st.current.value), "ab");
}

#[test]
fn reset_tag_type_undo_restores_fresh_snapshot() {
    let mut ed = shown("ab");
    ed.snaps.tag();
    ed.type_('x');
    assert_eq!(ed.text(), "xab");
    assert!(ed.snaps.undo());
    assert_eq!(ed.text(), "ab");
    assert_eq!(ed.snaps.current.cursor, 0);
    assert_eq!(ed.snaps.current.offset, 0);
    assert_eq!(ed.mode(), InputMode::Insert);
}

#[test]
fn delete_motion_then_undo_restores_text_and_cursor() {
    let mut ed = shown("hello world");
    ed.escape();
    assert!(!ed.delete(false));
    ed.forward(false);
    assert_eq!(ed.text(), "world");
    assert!(ed.snaps.undo());
    assert_eq!(ed.text(), "hello world");
    assert_eq!(ed.snaps.current.cursor, 0);
}

#[test]
fn editor_undo_after_delete() {
    let mut ed = shown("hello world");
    ed.escape();
    ed.delete(false);
    ed.forward(false);
    assert_eq!(ed.text(), "world");
    assert!(ed.undo());
    assert_eq!(ed.text(), "hello world");
}

#[test]
fn type_and_backspace_keep_cursor_in_bounds() {
    let mut ed = shown("");
    for c in "abcdef".chars() {
        ed.type_(c);
        assert!(ed.snaps.current.cursor <= ed.snaps.current.value.len());
        assert!(ed.snaps.current.offset <= ed.snaps.current.cursor);
    }
    assert_eq!(ed.text(), "abcdef");
    for _ in 0..10 {
        ed.backspace();
        assert!(ed.snaps.current.cursor <= ed.snaps.current.value.len());
        assert!(ed.snaps.current.offset <= ed.snaps.current.cursor);
    }
    assert_eq!(ed.text(), "");
    assert!(!ed.backspace());
}

#[test]
fn type_mid_string() {
    let mut ed = shown("ac");
    ed.move_(1);
    ed.type_('b');
    assert_eq!(ed.text(), "abc");
    assert_eq!(ed.snaps.current.cursor, 2);
}

#[test]
fn viewport_window_width_stays_under_limit() {
    let wide: String = std::iter::repeat('\u{597d}').take(30).collect();
    let mut ed = shown(&wide);
    assert_eq!(ed.value().chars().count(), 23);
    ed.move_(30);
    assert_eq!(ed.snaps.current.cursor, 30);
    assert_eq!(ed.snaps.current.offset, 7);
    assert_eq!(ed.value().chars().count(), 23);
    let (x, y) = ed.cursor();
    assert_eq!((x, y), (47, 3));
}

#[test]
fn viewport_scrolls_with_ascii_text() {
    let long: String = std::iter::repeat('a').take(100).collect();
    let mut ed = shown(&long);
    ed.move_(100);
    assert_eq!(ed.snaps.current.cursor, 100);
    assert_eq!(ed.snaps.current.offset, 100 - 47);
    assert!(ed.value().chars().count() < 48);
}

#[test]
fn yank_selection_stages_clipboard_text() {
    let mut ed = shown("hello");
    ed.visual();
    ed.move_(4);
    assert!(ed.yank());
    assert_eq!(
        ed.yanked.as_ref().map(|v| v.iter().collect::<String>()),
        Some("hello".to_string())
    );
    assert_eq!(ed.text(), "hello");
    assert_eq!(ed.snaps.current.op, InputOp::Noop);
}

#[test]
fn yank_twice_selects_whole_buffer_without_tagging() {
    let mut ed = shown("abc");
    ed.escape();
    let depth = ed.snaps.versions.len();
    assert!(!ed.yank());
    assert!(!ed.yank());
    assert_eq!(ed.snaps.current.start, Some(0));
    assert_eq!(ed.snaps.current.cursor, 2);
    assert_eq!(ed.snaps.current.op, InputOp::Yank);
    assert_eq!(ed.snaps.versions.len(), depth);
    assert!(ed.yanked.is_none());
}

#[test]
fn mismatched_operator_is_refused() {
    let mut ed = shown("abc");
    ed.escape();
    assert!(!ed.delete(false));
    assert!(!ed.yank());
    assert_eq!(ed.text(), "abc");
}

#[test]
fn insert_refused_while_operator_pending() {
    let mut ed = shown("abc");
    ed.escape();
    ed.delete(false);
    assert!(!ed.insert(true));
    assert_eq!(ed.mode(), InputMode::Normal);
}

#[test]
fn insert_append_advances_cursor() {
    let mut ed = shown("ab");
    ed.escape();
    assert!(ed.insert(true));
    assert_eq!(ed.mode(), InputMode::Insert);
    assert_eq!(ed.snaps.current.cursor, 1);
}

#[test]
fn visual_delete_applies_inclusive_range() {
    let mut ed = shown("hello");
    ed.visual();
    ed.move_(2);
    assert!(ed.delete(false));
    assert_eq!(ed.text(), "lo");
    assert_eq!(ed.snaps.current.cursor, 0);
    assert!(ed.snaps.undo());
    assert_eq!(ed.text(), "hello");
}

#[test]
fn move_in_operating_needs_pending_operator() {
    let mut ed = shown("abc");
    ed.escape();
    assert!(!ed.move_in_operating(1));
    assert_eq!(ed.snaps.current.cursor, 0);
    ed.delete(false);
    assert!(ed.move_in_operating(2));
    assert_eq!(ed.text(), "c");
}

#[test]
fn escape_clamps_cursor_from_insert() {
    let mut ed = shown("abc");
    ed.move_(3);
    assert_eq!(ed.snaps.current.cursor, 3);
    ed.escape();
    assert_eq!(ed.mode(), InputMode::Normal);
    assert_eq!(ed.snaps.current.cursor, 2);
}

#[test]
fn area_and_cursor_geometry() {
    let mut ed = Input::new();
    ed.show(InputOpt {
        title: "go".to_string(),
        value: "hey".to_string(),
        position: Position::Coords(3, 4),
    });
    assert_eq!(ed.area(), Rect { x: 3, y: 6, width: 50, height: 3 });
    assert_eq!(ed.cursor(), (4, 7));
    assert_eq!(ed.title(), "go");
    assert!(ed.visible);
    assert!(ed.close(false));
    assert!(!ed.visible);
}

#[test]
fn selected_covers_visible_selection() {
    let mut ed = shown("hello");
    assert_eq!(ed.selected(), None);
    ed.visual();
    ed.move_(2);
    assert_eq!(ed.selected(), Some(Rect { x: 1, y: 3, width: 2, height: 1 }));
}

#[test]
fn window_slices_value() {
    let ed = shown("hello");
    assert_eq!(ed.value(), "hello");
}

#[test]
fn run_events_drives_editor() {
    let events = vec![
        InputEvent::Show(InputOpt {
            title: "t".to_string(),
            value: "hello world".to_string(),
            position: Position::Coords(0, 0),
        }),
        InputEvent::Escape,
        InputEvent::Forward(false),
        InputEvent::Render,
    ];
    let (ed, frame) = modal_input::input::run_events(&events);
    assert_eq!(ed.snaps.current.cursor, 6);
    let frame = frame.expect("a frame was rendered");
    assert_eq!(frame.window, "hello world");
    assert_eq!(frame.mode, InputMode::Normal);
}

#[test]
fn mode_delta_distinguishes_modes() {
    assert_eq!(InputMode::Insert.delta(), 0);
    assert_eq!(InputMode::Normal.delta(), 1);
}

#[test]
fn backward_onto_leading_spaces_is_noop() {
    let mut ed = shown("  ab");
    ed.escape();
    ed.move_(2);
    assert_eq!(ed.snaps.current.cursor, 2);
    assert!(!ed.backward());
    assert_eq!(ed.snaps.current.cursor, 2);
}
