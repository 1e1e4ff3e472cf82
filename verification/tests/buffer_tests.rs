use pager::buffer::Buffer;
use pager::changes::GitChange;

fn make_buffer(data: &[u8]) -> Buffer {
    Buffer::from_bytes(data.to_vec(), "test".to_string(), None, false)
}

#[test]
fn test_empty() {
    let buf = make_buffer(b"");
    assert_eq!(buf.line_count(), 0);
    assert_eq!(buf.get_line(0), None);
}

#[test]
fn test_single_line() {
    let buf = make_buffer(b"hello world");
    assert_eq!(buf.line_count(), 1);
    assert_eq!(buf.get_line(0).as_deref(), Some("hello world"));
}

#[test]
fn test_multiple_lines() {
    let buf = make_buffer(b"one\ntwo\nthree\n");
    assert_eq!(buf.line_count(), 3);
    assert_eq!(buf.get_line(0).as_deref(), Some("one"));
    assert_eq!(buf.get_line(1).as_deref(), Some("two"));
    assert_eq!(buf.get_line(2).as_deref(), Some("three"));
}

#[test]
fn test_crlf() {
    let buf = make_buffer(b"first\r\nsecond\r\n");
    assert_eq!(buf.get_line(0).as_deref(), Some("first"));
    assert_eq!(buf.get_line(1).as_deref(), Some("second"));
}

#[test]
fn test_binary() {
    let buf = make_buffer(b"hello\x00world");
    assert!(buf.is_binary());
}

#[test]
fn test_hex_line() {
    let buf = make_buffer(b"ABCDEFGHIJKLMNOP");
    let line = buf.hex_line(0);
    assert!(line.starts_with("00000000"));
    assert!(line.contains("41 42 43 44"));
    assert!(line.contains("|ABCDEFGHIJKLMNOP|"));
}

#[test]
fn test_hex_line_count() {
    let buf = make_buffer(&[0u8; 32]);
    assert_eq!(buf.hex_line_count(), 2);
    let buf2 = make_buffer(&[0u8; 17]);
    assert_eq!(buf2.hex_line_count(), 2);
}

#[test]
fn line_count_formula_matches_interior_newlines() {
    // count of `\n` not at the final byte, plus one for non-empty content
    let cases: Vec<(&[u8], usize)> = vec![
        (b"", 0),
        (b"a", 1),
        (b"a\n", 1),
        (b"a\nb", 2),
        (b"a\nb\n", 2),
        (b"\n", 1),
        (b"\n\n", 2),
        (b"one\ntwo\nthree\n", 3),
    ];
    for (data, expected) in cases {
        let buf = make_buffer(data);
        assert_eq!(buf.line_count(), expected, "content {:?}", data);
    }
}

#[test]
fn get_line_strips_line_endings_and_rejects_out_of_range() {
    let buf = make_buffer(b"plain\ncrlf\r\nlast");
    for i in 0..buf.line_count() {
        let line = buf.get_line(i).unwrap();
        assert!(!line.ends_with('\n'));
        assert!(!line.ends_with('\r'));
    }
    assert_eq!(buf.get_line(buf.line_count()), None);
}

#[test]
fn joined_lines_reproduce_content() {
    for content in ["one\ntwo\nthree\n", "one\ntwo", "\n\nx", "a"] {
        let buf = make_buffer(content.as_bytes());
        let joined = (0..buf.line_count())
            .map(|i| buf.get_line(i).unwrap())
            .collect::<Vec<_>>()
            .join("\n");
        let expected = content.strip_suffix('\n').unwrap_or(content);
        assert_eq!(joined, expected, "content {:?}", content);
    }
}

#[test]
fn binary_detection_boundaries() {
    assert!(!make_buffer(b"pure ascii text\n").is_binary());
    assert!(make_buffer(b"\x00").is_binary());
    // NUL inside the first 8 KiB counts
    let mut data = vec![b'a'; 8191];
    data.push(0);
    assert!(make_buffer(&data).is_binary());
    // NUL only after the first 8 KiB does not
    let mut data2 = vec![b'a'; 8192];
    data2.push(0);
    assert!(!make_buffer(&data2).is_binary());
}

#[test]
fn invalid_text_line_is_absent() {
    let buf = make_buffer(b"ok\n\xff\xfe\nalso ok");
    assert_eq!(buf.get_line(0).as_deref(), Some("ok"));
    assert_eq!(buf.get_line(1), None);
    assert_eq!(buf.get_line(2).as_deref(), Some("also ok"));
}

#[test]
fn hex_line_exact_row() {
    let buf = make_buffer(b"ABCDEFGHIJKLMNOP");
    let expected =
        "00000000  41 42 43 44 45 46 47 48 49 4a 4b 4c 4d 4e 4f 50  |ABCDEFGHIJKLMNOP|";
    assert_eq!(buf.hex_line(0), expected);
    assert_eq!(buf.hex_line(1), "");
}

#[test]
fn hex_line_partial_row() {
    let buf = make_buffer(&[0x41u8, 0x00, 0x7f]);
    let line = buf.hex_line(0);
    assert!(line.starts_with("00000000  41 00 7f"));
    assert!(line.ends_with("|A..|"));
    assert_eq!(buf.display_line_count(), 1);
}

#[test]
fn gzip_content_is_inflated_by_name() {
    let plain = b"alpha\nbeta\ngamma\n";
    let mut enc =
        flate2::write::GzEncoder::new(Vec::new(), flate2::Compression::default());
    std::io::Write::write_all(&mut enc, plain).unwrap();
    let compressed = enc.finish().unwrap();
    let buf = Buffer::from_file_bytes(compressed, "log.txt.gz".to_string(), None).unwrap();
    assert_eq!(buf.line_count(), 3);
    assert_eq!(buf.get_line(0).as_deref(), Some("alpha"));
}

#[test]
fn zstd_content_is_inflated_by_name() {
    let plain = b"one\ntwo\n";
    let compressed = zstd::stream::encode_all(&plain[..], 0).unwrap();
    let buf = Buffer::from_file_bytes(compressed, "data.zst".to_string(), None).unwrap();
    assert_eq!(buf.get_line(1).as_deref(), Some("two"));
}

#[test]
fn bzip2_content_is_inflated_by_name() {
    let plain = b"bz line\n";
    let mut enc = bzip2::write::BzEncoder::new(Vec::new(), bzip2::Compression::default());
    std::io::Write::write_all(&mut enc, plain).unwrap();
    let compressed = enc.finish().unwrap();
    let buf = Buffer::from_file_bytes(compressed, "notes.bz2".to_string(), None).unwrap();
    assert_eq!(buf.get_line(0).as_deref(), Some("bz line"));
}

#[test]
fn corrupt_compressed_content_is_an_error() {
    let r = Buffer::from_file_bytes(b"not gzip".to_vec(), "x.gz".to_string(), None);
    assert!(r.is_err());
    let plain = Buffer::from_file_bytes(b"not gzip".to_vec(), "x.txt".to_string(), None);
    assert_eq!(plain.unwrap().get_line(0).as_deref(), Some("not gzip"));
}

#[test]
fn reload_replaces_content_and_keeps_identity() {
    let mut buf = Buffer::from_bytes(
        b"old\n".to_vec(),
        "file.txt".to_string(),
        Some("/tmp/file.txt".to_string()),
        false,
    );
    buf.apply_reload(b"new one\nnew two\n".to_vec()).unwrap();
    assert_eq!(buf.line_count(), 2);
    assert_eq!(buf.get_line(0).as_deref(), Some("new one"));
    assert_eq!(buf.name, "file.txt");
    assert_eq!(buf.path.as_deref(), Some("/tmp/file.txt"));
}

#[test]
fn parse_git_changes_records_hunks() {
    let listing = b"diff --git a/f b/f\n@@ -5,0 +6,2 @@ fn ctx()\n+new line\n+other\n@@ -10,2 +12,2 @@\n-x\n+y\n@@ -20,2 +21,0 @@\n-gone\n";
    let m = pager::changes::parse_git_changes(listing);
    // added lines 6..8 (1-indexed) -> 0-indexed 5 and 6
    assert_eq!(m.get(5), Some(GitChange::Added));
    assert_eq!(m.get(6), Some(GitChange::Added));
    // modified lines 12..14 -> 0-indexed 11 and 12
    assert_eq!(m.get(11), Some(GitChange::Modified));
    assert_eq!(m.get(12), Some(GitChange::Modified));
    // deletion at +21,0 -> marker on 0-indexed 20
    assert_eq!(m.get(20), Some(GitChange::Deleted));
    assert_eq!(m.get(0), None);
}

#[test]
fn parse_range_defaults() {
    assert_eq!(pager::changes::parse_range("10,5"), (10, 5));
    assert_eq!(pager::changes::parse_range("7"), (7, 1));
    assert_eq!(pager::changes::parse_range("x"), (1, 1));
    assert_eq!(pager::changes::parse_range("3,zz"), (3, 1));
}

#[test]
fn diff_buffer_lists_changed_lines() {
    let buf = Buffer::from_diff("a\nb\nc\n", "a\nx\nc\n", "left.txt", "right.txt");
    assert!(buf.is_diff);
    assert_eq!(buf.name, "left.txt -> right.txt");
    assert_eq!(buf.get_line(0).as_deref(), Some("--- left.txt"));
    assert_eq!(buf.get_line(1).as_deref(), Some("+++ right.txt"));
    let all: Vec<String> = (0..buf.line_count()).filter_map(|i| buf.get_line(i)).collect();
    assert!(all.iter().any(|l| l.starts_with("@@ -1,3 +1,3 @@")));
    assert!(all.contains(&"-b".to_string()));
    assert!(all.contains(&"+x".to_string()));
    assert!(all.contains(&" a".to_string()));
}

#[test]
fn text_snapshot_collects_lines() {
    let buf = make_buffer(b"a\nb\nc");
    assert_eq!(buf.text_snapshot(), vec!["a", "b", "c"]);
}

#[test]
fn doubled_carriage_return_keeps_one() {
    // stripping removes one trailing newline, then one carriage return
    let buf = make_buffer(b"x\r\r\n");
    assert_eq!(buf.get_line(0).as_deref(), Some("x\r"));
}
