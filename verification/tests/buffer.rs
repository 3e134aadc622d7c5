use process_registry::buffer::CircularOutputBuffer;

#[test]
fn new_buffer_is_empty() {
    let buffer = CircularOutputBuffer::new(100, 4096);
    assert_eq!(buffer.len(), 0);
    assert!(buffer.is_empty());
    assert_eq!(buffer.total_bytes(), 0);
    assert_eq!(buffer.get_all(), "");
    assert_eq!(buffer.get_recent(5), "");
}

#[test]
fn caps_are_clamped_from_below() {
    let buffer = CircularOutputBuffer::new(3, 5);
    let stats = buffer.stats();
    assert_eq!(stats.max_lines, 10);
    assert_eq!(stats.max_bytes, 1024);
}

#[test]
fn caps_are_clamped_from_above() {
    let buffer = CircularOutputBuffer::new(usize::MAX, usize::MAX);
    let stats = buffer.stats();
    assert_eq!(stats.max_lines, 10000);
    assert_eq!(stats.max_bytes, 100 * 1024 * 1024);
}

#[test]
fn caps_in_range_are_kept() {
    let buffer = CircularOutputBuffer::new(250, 65536);
    let stats = buffer.stats();
    assert_eq!(stats.max_lines, 250);
    assert_eq!(stats.max_bytes, 65536);
}

#[test]
fn append_adds_missing_newline() {
    let mut buffer = CircularOutputBuffer::new(10, 1024);
    buffer.append("hello");
    assert_eq!(buffer.get_all(), "hello\n");
    assert_eq!(buffer.len(), 1);
    assert_eq!(buffer.total_bytes(), 6);
}

#[test]
fn append_keeps_existing_newline() {
    let mut buffer = CircularOutputBuffer::new(10, 1024);
    buffer.append("hello\n");
    assert_eq!(buffer.get_all(), "hello\n");
    assert_eq!(buffer.total_bytes(), 6);
}

#[test]
fn append_of_empty_chunk_changes_nothing() {
    let mut buffer = CircularOutputBuffer::new(10, 1024);
    buffer.append("a");
    buffer.append("");
    assert_eq!(buffer.len(), 1);
    assert_eq!(buffer.get_all(), "a\n");
}

#[test]
fn a_chunk_with_inner_newlines_is_one_line() {
    let mut buffer = CircularOutputBuffer::new(10, 1024);
    buffer.append("a\nb\nc");
    assert_eq!(buffer.len(), 1);
    assert_eq!(buffer.get_all(), "a\nb\nc\n");
}

#[test]
fn oldest_lines_are_evicted_over_the_line_cap() {
    let mut buffer = CircularOutputBuffer::new(10, 1024);
    for i in 0..12 {
        buffer.append(&format!("line {}", i));
    }
    assert_eq!(buffer.len(), 10);
    let all = buffer.get_all();
    assert!(all.starts_with("line 2\n"));
    assert!(all.ends_with("line 11\n"));
}

#[test]
fn oldest_lines_are_evicted_over_the_byte_cap() {
    let mut buffer = CircularOutputBuffer::new(100, 1024);
    let chunk = "x".repeat(299);
    buffer.append(&chunk);
    buffer.append(&chunk);
    buffer.append(&chunk);
    assert_eq!(buffer.len(), 3);
    assert_eq!(buffer.total_bytes(), 900);
    buffer.append(&chunk);
    assert_eq!(buffer.len(), 3);
    assert_eq!(buffer.total_bytes(), 900);
}

#[test]
fn limits_hold_after_every_append() {
    let mut buffer = CircularOutputBuffer::new(12, 2000);
    for i in 0..200usize {
        let chunk = "ab".repeat((i * 37) % 700);
        buffer.append(&chunk);
        assert!(buffer.len() <= 12);
        assert!(buffer.total_bytes() <= 2000);
        assert_eq!(buffer.total_bytes(), buffer.get_all().len());
    }
}

#[test]
fn oversized_chunk_keeps_its_last_bytes() {
    let mut buffer = CircularOutputBuffer::new(10, 1024);
    buffer.append("earlier");
    let mut chunk = String::new();
    for i in 0..1500usize {
        chunk.push(char::from(b'a' + (i % 26) as u8));
    }
    let mut line = chunk.clone();
    line.push('\n');
    buffer.append(&chunk);
    assert_eq!(buffer.len(), 1);
    assert_eq!(buffer.total_bytes(), 1024);
    assert_eq!(buffer.get_all(), line[line.len() - 1024..]);
}

#[test]
fn oversized_chunk_is_cut_between_characters() {
    let mut buffer = CircularOutputBuffer::new(10, 1024);
    // 513 two-byte characters and the newline: 1027 bytes; the cut after
    // which 1024 bytes remain falls inside the second character.
    let chunk = "\u{e9}".repeat(513);
    buffer.append(&chunk);
    assert_eq!(buffer.len(), 1);
    assert_eq!(buffer.total_bytes(), 1023);
    let mut expected = "\u{e9}".repeat(511);
    expected.push('\n');
    assert_eq!(buffer.get_all(), expected);
}

#[test]
fn recent_returns_the_last_lines_in_order() {
    let mut buffer = CircularOutputBuffer::new(10, 1024);
    buffer.append("one");
    buffer.append("two");
    buffer.append("three");
    assert_eq!(buffer.get_recent(2), "two\nthree\n");
    assert_eq!(buffer.get_recent(1), "three\n");
    assert_eq!(buffer.get_recent(0), "");
}

#[test]
fn recent_of_more_than_held_equals_all() {
    let mut buffer = CircularOutputBuffer::new(10, 1024);
    buffer.append("one");
    buffer.append("two");
    assert_eq!(buffer.get_recent(2), buffer.get_all());
    assert_eq!(buffer.get_recent(3), buffer.get_all());
    assert_eq!(buffer.get_recent(usize::MAX), buffer.get_all());
}

#[test]
fn clear_resets_lines_and_bytes() {
    let mut buffer = CircularOutputBuffer::new(10, 1024);
    buffer.append("one");
    buffer.append("two");
    buffer.clear();
    assert!(buffer.is_empty());
    assert_eq!(buffer.total_bytes(), 0);
    assert_eq!(buffer.get_all(), "");
    buffer.append("three");
    assert_eq!(buffer.get_all(), "three\n");
}

#[test]
fn stats_report_counts_and_whole_percent() {
    let mut buffer = CircularOutputBuffer::new(10, 1024);
    buffer.append("abc");
    let stats = buffer.stats();
    assert_eq!(stats.lines, 1);
    assert_eq!(stats.bytes, 4);
    assert_eq!(stats.max_lines, 10);
    assert_eq!(stats.max_bytes, 1024);
    assert_eq!(stats.usage_percent, 10);
    assert_eq!(buffer.usage_percent(), 10);
}

#[test]
fn usage_percent_follows_the_fuller_cap() {
    let mut buffer = CircularOutputBuffer::new(100, 1024);
    buffer.append(&"x".repeat(511));
    // 1 of 100 lines, 512 of 1024 bytes
    assert_eq!(buffer.usage_percent(), 50);
}

#[test]
fn near_capacity_is_strictly_above_four_fifths() {
    let mut buffer = CircularOutputBuffer::new(10, 1024 * 1024);
    for _ in 0..8 {
        buffer.append("x");
    }
    assert!(!buffer.is_near_capacity());
    buffer.append("x");
    assert!(buffer.is_near_capacity());
}

#[test]
fn near_capacity_by_bytes() {
    let mut buffer = CircularOutputBuffer::new(1000, 1024);
    buffer.append(&"x".repeat(818));
    // 819 bytes: 5 * 819 = 4095 <= 4096
    assert!(!buffer.is_near_capacity());
    buffer.clear();
    buffer.append(&"x".repeat(819));
    // 820 bytes: 5 * 820 = 4100 > 4096
    assert!(buffer.is_near_capacity());
}

#[test]
fn small_line_cap_is_raised_to_ten() {
    let mut buffer = CircularOutputBuffer::new(3, 1024);
    buffer.append("a");
    buffer.append("b");
    buffer.append("c");
    buffer.append("d");
    assert_eq!(buffer.get_all(), "a\nb\nc\nd\n");
    assert_eq!(buffer.get_recent(3), "b\nc\nd\n");
    for i in 0..7 {
        buffer.append(&format!("{}", i));
    }
    assert_eq!(buffer.len(), 10);
    assert!(buffer.get_all().starts_with("b\nc\nd\n"));
}

#[test]
fn chunk_of_exactly_the_byte_cap_is_kept_whole() {
    let mut buffer = CircularOutputBuffer::new(10, 1024);
    let mut chunk = "y".repeat(1023);
    chunk.push('\n');
    buffer.append("earlier");
    buffer.append(&chunk);
    assert_eq!(buffer.len(), 1);
    assert_eq!(buffer.get_all(), chunk);
    assert_eq!(buffer.total_bytes(), 1024);
}

#[test]
fn newline_added_to_a_chunk_counts_towards_the_cap() {
    let mut buffer = CircularOutputBuffer::new(10, 1024);
    let chunk = "y".repeat(1024);
    buffer.append(&chunk);
    let mut expected = "y".repeat(1023);
    expected.push('\n');
    assert_eq!(buffer.get_all(), expected);
}
