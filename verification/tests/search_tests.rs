use pager::buffer::Buffer;
use pager::search::{LineMatch, SearchState, search_snapshot};

fn make_buffer(data: &[u8]) -> Buffer {
    Buffer::from_bytes(data.to_vec(), "test".to_string(), None, false)
}

fn lm(line: usize, start: usize, end: usize) -> LineMatch {
    LineMatch { line, start, end }
}

#[test]
fn committed_match_set_in_order() {
    let buf = make_buffer(b"alpha\nbeta\nalpha\n");
    let mut s = SearchState::new();
    s.set_pattern("alpha", true).unwrap();
    s.search_buffer(&buf);
    assert_eq!(s.matches, vec![lm(0, 0, 5), lm(2, 0, 5)]);
    assert_eq!(s.current, 0);
}

#[test]
fn next_match_advances_to_second_line() {
    let buf = make_buffer(b"alpha\nbeta\nalpha\n");
    let mut s = SearchState::new();
    s.set_pattern("alpha", true).unwrap();
    s.search_buffer(&buf);
    s.next_match();
    assert_eq!(s.current, 1);
    assert_eq!(s.current_match_line(), Some(2));
}

#[test]
fn jump_to_line_finds_first_match_at_or_after() {
    let buf = make_buffer(b"alpha\nbeta\nalpha\n");
    let mut s = SearchState::new();
    s.set_pattern("alpha", true).unwrap();
    s.search_buffer(&buf);
    s.jump_to_line(1);
    assert_eq!(s.current_match_line(), Some(2));
    // no match at or after line 3: the cursor stays put
    s.jump_to_line(3);
    assert_eq!(s.current_match_line(), Some(2));
}

#[test]
fn next_then_prev_returns_cursor() {
    let buf = make_buffer(b"x\nx\nx\nx\nx\n");
    let mut s = SearchState::new();
    s.set_pattern("x", true).unwrap();
    s.search_buffer(&buf);
    for start in 0..5 {
        s.current = start;
        s.next_match();
        s.prev_match();
        assert_eq!(s.current, start);
        s.prev_match();
        s.next_match();
        assert_eq!(s.current, start);
    }
}

#[test]
fn empty_set_is_a_no_op() {
    let mut s = SearchState::new();
    s.next_match();
    s.prev_match();
    assert_eq!(s.current, 0);
    assert_eq!(s.current_match_line(), None);
}

#[test]
fn matches_on_line_keeps_column_order() {
    let buf = make_buffer(b"ab ab ab\nno\nab\n");
    let mut s = SearchState::new();
    s.set_pattern("ab", true).unwrap();
    s.search_buffer(&buf);
    assert_eq!(s.matches_on_line(0), vec![(0, 2), (3, 5), (6, 8)]);
    assert_eq!(s.matches_on_line(1), vec![]);
    assert_eq!(s.matches_on_line(2), vec![(0, 2)]);
}

#[test]
fn preview_scans_only_visible_lines() {
    let buf = make_buffer(b"hit\nmiss\nhit\nhit\n");
    let mut s = SearchState::new();
    s.set_pattern("hit", true).unwrap();
    s.search_visible_lines(&buf, 0, 2);
    assert_eq!(s.preview_matches, vec![lm(0, 0, 3)]);
    assert_eq!(s.preview_matches_on_line(0), vec![(0, 3)]);
    // a fresh preview replaces, never merges
    s.search_visible_lines(&buf, 2, 100);
    assert_eq!(s.preview_matches, vec![lm(2, 0, 3), lm(3, 0, 3)]);
}

#[test]
fn smart_case_rules() {
    let buf = make_buffer(b"Alpha\nalpha\n");
    let mut s = SearchState::new();
    // all-lowercase query under smart case: insensitive
    s.set_pattern("alpha", true).unwrap();
    s.search_buffer(&buf);
    assert_eq!(s.match_count(), 2);
    // uppercase in the query: sensitive
    s.set_pattern("Alpha", true).unwrap();
    s.search_buffer(&buf);
    assert_eq!(s.match_count(), 1);
    // smart case off: always sensitive
    s.set_pattern("alpha", false).unwrap();
    s.search_buffer(&buf);
    assert_eq!(s.match_count(), 1);
}

#[test]
fn invalid_pattern_is_reported_and_keeps_old_pattern() {
    let mut s = SearchState::new();
    s.set_pattern("good", true).unwrap();
    assert!(s.set_pattern("[", true).is_err());
    assert!(s.has_pattern());
    assert_eq!(s.query_string, "[");
}

#[test]
fn empty_query_clears_pattern_and_matches() {
    let buf = make_buffer(b"x\n");
    let mut s = SearchState::new();
    s.set_pattern("x", true).unwrap();
    s.search_buffer(&buf);
    assert_eq!(s.match_count(), 1);
    s.set_pattern("", true).unwrap();
    assert!(!s.has_pattern());
    assert_eq!(s.match_count(), 0);
}

#[test]
fn snapshot_scan_matches_buffer_scan() {
    let buf = make_buffer(b"aa\nbb\naa\n");
    let mut s = SearchState::new();
    s.set_pattern("aa", true).unwrap();
    s.search_buffer(&buf);
    let snap = buf.text_snapshot();
    let p = match &s.pattern {
        Some(p) => p,
        None => panic!("pattern must be set"),
    };
    let scanned = search_snapshot(p, &snap, 0, snap.len());
    assert_eq!(scanned, s.matches);
}

#[test]
fn regex_matches_are_byte_ranges() {
    let buf = make_buffer(b"foo bar foo\n");
    let mut s = SearchState::new();
    s.set_pattern("f.o", true).unwrap();
    s.search_buffer(&buf);
    assert_eq!(s.matches, vec![lm(0, 0, 3), lm(0, 8, 11)]);
}
