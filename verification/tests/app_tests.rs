use pager::app_core::{App, Mode};
use pager::buffer::Buffer;
use pager::config::Config;
use pager::input::{handle_event, Effect, InputEvent};
use pager::keymap::{Key, KeyPress};
use pager::search::SearchBatch;

fn make_buffer(data: &[u8]) -> Buffer {
    Buffer::from_bytes(data.to_vec(), "test".to_string(), None, false)
}

fn make_app(data: &[u8]) -> App {
    App::new(vec![make_buffer(data)], Config::default())
}

fn key(c: char) -> InputEvent {
    InputEvent::Key(KeyPress { key: Key::Char(c), ctrl: false, shift: false })
}

fn special(k: Key) -> InputEvent {
    InputEvent::Key(KeyPress { key: k, ctrl: false, shift: false })
}

fn numbered_lines(n: usize) -> Vec<u8> {
    let mut out = String::new();
    for i in 0..n {
        out.push_str(&format!("line {}\n", i));
    }
    out.into_bytes()
}

#[test]
fn scrolling_is_clamped() {
    let mut app = make_app(&numbered_lines(100));
    app.content_height = 10;
    app.scroll_down(5);
    assert_eq!(app.top_line, 5);
    app.scroll_down(1000);
    assert_eq!(app.top_line, 90);
    app.scroll_up(3);
    assert_eq!(app.top_line, 87);
    app.scroll_up(1000);
    assert_eq!(app.top_line, 0);
}

#[test]
fn goto_line_centers_the_target() {
    let mut app = make_app(&numbered_lines(100));
    app.content_height = 10;
    app.goto_line(50);
    assert_eq!(app.top_line, 45);
    app.goto_line(0);
    assert_eq!(app.top_line, 0);
    app.goto_line(99);
    assert_eq!(app.top_line, 90);
}

#[test]
fn filter_keeps_matching_lines_only() {
    let mut app = make_app(b"alpha\nbeta\nalpha\n");
    app.content_height = 5;
    app.apply_filter("beta");
    let (q, idx) = app.filter.clone().unwrap();
    assert_eq!(q, "beta");
    assert_eq!(idx, vec![1]);
    assert_eq!(app.top_filter_idx, 0);
    // with content height >= 1, scrolling must not move the top index past 0
    app.scroll_down(1);
    assert_eq!(app.top_filter_idx, 0);
    assert_eq!(app.active_lines(), vec![1]);
}

#[test]
fn invalid_filter_keeps_previous_state() {
    let mut app = make_app(b"alpha\nbeta\n");
    app.apply_filter("beta");
    let before = app.filter.clone();
    app.apply_filter("[");
    assert_eq!(app.filter, before);
    assert!(app.status_message.is_some());
}

#[test]
fn empty_filter_clears() {
    let mut app = make_app(b"alpha\nbeta\n");
    app.apply_filter("beta");
    assert!(app.filter.is_some());
    app.apply_filter("");
    assert!(app.filter.is_none());
    assert_eq!(app.top_filter_idx, 0);
}

#[test]
fn gutter_width_formula() {
    let mut app = make_app(&numbered_lines(999));
    app.show_line_numbers = true;
    assert_eq!(app.gutter_width(), 5);
    let mut empty = make_app(b"");
    empty.show_line_numbers = true;
    assert_eq!(empty.gutter_width(), 3);
    empty.show_line_numbers = false;
    assert_eq!(empty.gutter_width(), 0);
}

#[test]
fn scroll_percentage_bounds() {
    let mut app = make_app(&numbered_lines(200));
    app.content_height = 10;
    assert_eq!(app.scroll_percentage(), 5);
    app.goto_bottom();
    assert_eq!(app.scroll_percentage(), 100);
    let empty = make_app(b"");
    assert_eq!(empty.scroll_percentage(), 100);
}

#[test]
fn buffer_rotation_wraps_and_resets() {
    let buffers = vec![make_buffer(b"one\n"), make_buffer(b"two\n"), make_buffer(b"three\n")];
    let mut app = App::new(buffers, Config::default());
    app.top_line = 0;
    app.next_buffer();
    assert_eq!(app.active_buffer, 1);
    app.next_buffer();
    assert_eq!(app.active_buffer, 2);
    app.next_buffer();
    assert_eq!(app.active_buffer, 0);
    app.prev_buffer();
    assert_eq!(app.active_buffer, 2);
    assert_eq!(app.top_line, 0);
    assert_eq!(app.left_col, 0);
    assert!(app.status_message.is_some());
}

#[test]
fn mark_set_and_jump_round_trip() {
    let mut app = make_app(&numbered_lines(200));
    app.content_height = 10;
    app.top_line = 42;
    handle_event(&mut app, key('m'));
    assert_eq!(app.pending_key, Some('m'));
    handle_event(&mut app, key('a'));
    assert_eq!(app.pending_key, None);
    app.goto_top();
    assert_eq!(app.top_line, 0);
    handle_event(&mut app, key('\''));
    handle_event(&mut app, key('a'));
    assert_eq!(app.top_line, 42);
}

#[test]
fn jump_to_unknown_mark_reports() {
    let mut app = make_app(&numbered_lines(10));
    handle_event(&mut app, key('\''));
    handle_event(&mut app, key('z'));
    assert_eq!(app.top_line, 0);
    assert!(app.status_message.is_some());
}

#[test]
fn quit_keys() {
    let mut app = make_app(b"x\n");
    handle_event(&mut app, key('q'));
    assert!(app.quit);
    let mut app2 = make_app(b"x\n");
    handle_event(
        &mut app2,
        InputEvent::Key(KeyPress { key: Key::Char('c'), ctrl: true, shift: false }),
    );
    assert!(app2.quit);
}

#[test]
fn search_input_mode_flow() {
    let mut app = make_app(b"alpha\nbeta\nalpha\n");
    handle_event(&mut app, key('/'));
    assert!(matches!(app.mode, Mode::SearchInput { ref input, forward: true } if input.is_empty()));
    handle_event(&mut app, key('a'));
    handle_event(&mut app, key('l'));
    // live preview over the visible lines
    assert!(!app.search.preview_matches.is_empty());
    let fx = handle_event(&mut app, special(Key::Enter));
    assert!(matches!(app.mode, Mode::Normal));
    match fx {
        Some(Effect::StartSearch { pattern, snapshot }) => {
            assert_eq!(snapshot.len(), 3);
            let found = pager::search::search_snapshot(&pattern, &snapshot, 0, snapshot.len());
            let done = app.absorb_search_batch(SearchBatch::Done { matches: found });
            assert!(done);
            assert_eq!(app.search.match_count(), 2);
            assert!(!app.search.is_searching);
        },
        _ => panic!("committing a query must start a search"),
    }
}

#[test]
fn search_escape_discards_preview() {
    let mut app = make_app(b"alpha\n");
    handle_event(&mut app, key('/'));
    handle_event(&mut app, key('a'));
    assert!(!app.search.preview_matches.is_empty());
    handle_event(&mut app, special(Key::Esc));
    assert!(matches!(app.mode, Mode::Normal));
    assert!(app.search.preview_matches.is_empty());
    assert!(app.status_message.is_none());
}

#[test]
fn invalid_search_reports_and_stays_normal() {
    let mut app = make_app(b"alpha\n");
    handle_event(&mut app, key('/'));
    handle_event(&mut app, key('['));
    let fx = handle_event(&mut app, special(Key::Enter));
    assert!(fx.is_none());
    assert!(matches!(app.mode, Mode::Normal));
    assert!(app.status_message.is_some());
}

#[test]
fn command_mode_executes() {
    let mut app = make_app(&numbered_lines(100));
    app.content_height = 10;
    handle_event(&mut app, key(':'));
    assert!(matches!(app.mode, Mode::CommandInput { .. }));
    handle_event(&mut app, key('5'));
    handle_event(&mut app, key('0'));
    handle_event(&mut app, special(Key::Enter));
    assert!(matches!(app.mode, Mode::Normal));
    // line 50 is 1-indexed: centers line 49
    assert_eq!(app.top_line, 44);

    handle_event(&mut app, key(':'));
    handle_event(&mut app, key('q'));
    handle_event(&mut app, special(Key::Enter));
    assert!(app.quit);
}

#[test]
fn unknown_command_reports() {
    let mut app = make_app(b"x\n");
    handle_event(&mut app, key(':'));
    handle_event(&mut app, key('w'));
    handle_event(&mut app, key('a'));
    handle_event(&mut app, special(Key::Enter));
    assert!(!app.quit);
    assert!(app.status_message.is_some());
}

#[test]
fn visual_selection_yanks_lines() {
    let mut app = make_app(b"one\ntwo\nthree\n");
    app.content_height = 10;
    handle_event(&mut app, key('v'));
    assert!(matches!(app.mode, Mode::Visual { anchor: 0, cursor: 0 }));
    handle_event(&mut app, key('j'));
    assert!(matches!(app.mode, Mode::Visual { anchor: 0, cursor: 1 }));
    let fx = handle_event(&mut app, key('y'));
    match fx {
        Some(Effect::Copy { text, lines }) => {
            assert_eq!(text, "one\ntwo");
            assert_eq!(lines, 2);
        },
        _ => panic!("yank must hand the selection back"),
    }
    assert!(matches!(app.mode, Mode::Normal));
    app.note_clipboard_result(2, None);
    assert_eq!(app.status_message.as_deref(), Some("Yanked 2 lines"));
}

#[test]
fn visual_cursor_is_clamped() {
    let mut app = make_app(b"one\ntwo\n");
    app.content_height = 10;
    handle_event(&mut app, key('v'));
    handle_event(&mut app, key('j'));
    handle_event(&mut app, key('j'));
    handle_event(&mut app, key('j'));
    assert!(matches!(app.mode, Mode::Visual { anchor: 0, cursor: 1 }));
    handle_event(&mut app, key('k'));
    handle_event(&mut app, key('k'));
    assert!(matches!(app.mode, Mode::Visual { anchor: 0, cursor: 0 }));
    handle_event(&mut app, special(Key::Esc));
    assert!(matches!(app.mode, Mode::Normal));
}

#[test]
fn follow_mode_enter_and_exit() {
    let mut app = make_app(&numbered_lines(100));
    app.content_height = 10;
    handle_event(&mut app, key('F'));
    assert!(matches!(app.mode, Mode::Follow));
    assert_eq!(app.top_line, 90);
    handle_event(&mut app, special(Key::Esc));
    assert!(matches!(app.mode, Mode::Normal));
}

#[test]
fn follow_reload_tracks_new_content() {
    let mut app = make_app(&numbered_lines(20));
    app.content_height = 5;
    app.mode = Mode::Follow;
    app.finish_reload(Ok(numbered_lines(40)));
    assert_eq!(app.total_lines(), 40);
    assert_eq!(app.top_line, 35);
}

#[test]
fn reload_failure_reports() {
    let mut app = make_app(b"x\n");
    app.finish_reload(Err("no such file".to_string()));
    assert_eq!(app.total_lines(), 1);
    assert!(app.status_message.as_deref().unwrap().contains("Reload failed"));
}

#[test]
fn reload_reruns_committed_search() {
    let mut app = make_app(b"hit\nmiss\n");
    app.search.set_pattern("hit", true).unwrap();
    {
        let buf = &app.buffers[0];
        app.search.search_buffer(buf);
    }
    assert_eq!(app.search.match_count(), 1);
    app.finish_reload(Ok(b"hit\nhit\nhit\n".to_vec()));
    assert_eq!(app.search.match_count(), 3);
}

#[test]
fn resize_updates_viewport() {
    let mut app = make_app(b"x\n");
    handle_event(&mut app, InputEvent::Resize { width: 120, height: 40 });
    assert_eq!(app.content_width, 120);
    assert_eq!(app.content_height, 38);
}

#[test]
fn mouse_wheel_scrolls_three() {
    let mut app = make_app(&numbered_lines(100));
    app.content_height = 10;
    handle_event(&mut app, InputEvent::MouseScrollDown);
    assert_eq!(app.top_line, 3);
    handle_event(&mut app, InputEvent::MouseScrollUp);
    assert_eq!(app.top_line, 0);
}

#[test]
fn progress_batches_accumulate() {
    let mut app = make_app(b"x\n");
    let done = app.absorb_search_batch(SearchBatch::Progress {
        matches: vec![pager::search::LineMatch { line: 0, start: 0, end: 1 }],
        lines_scanned: 10000,
    });
    assert!(!done);
    assert_eq!(app.search.match_count(), 1);
    let done2 = app.absorb_search_batch(SearchBatch::Done { matches: vec![] });
    assert!(done2);
    assert_eq!(app.search.match_count(), 1);
}

#[test]
fn hex_view_drives_display_count() {
    let mut app = make_app(&[0u8; 40]);
    app.content_height = 2;
    assert_eq!(app.total_lines(), 3);
    assert_eq!(app.max_top_line(), 1);
}

#[test]
fn active_lines_window() {
    let mut app = make_app(b"a\nb\nc\nd\ne\n");
    app.content_height = 2;
    assert_eq!(app.active_lines(), vec![0, 1]);
    app.scroll_down(3);
    assert_eq!(app.active_lines(), vec![3, 4]);
}

#[test]
fn command_backspace_edits_input() {
    let mut app = make_app(b"x\n");
    handle_event(&mut app, key(':'));
    handle_event(&mut app, key('q'));
    handle_event(&mut app, key('x'));
    handle_event(&mut app, special(Key::Backspace));
    handle_event(&mut app, special(Key::Enter));
    assert!(app.quit);
}

#[test]
fn shrinking_reload_reclamps_viewport() {
    let mut app = make_app(&numbered_lines(100));
    app.content_height = 10;
    app.goto_bottom();
    assert_eq!(app.top_line, 90);
    app.finish_reload(Ok(numbered_lines(20)));
    assert_eq!(app.total_lines(), 20);
    assert_eq!(app.top_line, 10);
}
