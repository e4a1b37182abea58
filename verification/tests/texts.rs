use microclaw::clock::{Duration, Instant};
use microclaw::table::NameTable;
use microclaw::text;

#[test]
fn white_space_is_what_unicode_says() {
    for n in 0..=0x10ffffu32 {
        if let Some(c) = char::from_u32(n) {
            assert_eq!(text::white_space(c), c.is_whitespace(), "{n:x}");
        }
    }
}

#[test]
fn capitals_are_made_small() {
    for n in 0..0x250u32 {
        if let Some(c) = char::from_u32(n) {
            assert_eq!(text::to_lower_char(c), c.to_ascii_lowercase());
        }
    }
    assert_eq!(text::to_lower("MCP Tool ÄÖ"), "mcp tool ÄÖ");
    assert_eq!(text::to_lower(&text::to_lower("AbC")), text::to_lower("AbC"));
}

#[test]
fn white_space_is_cut_at_both_ends() {
    for s in ["", " ", "\t\n", " a ", "a b", "\u{a0}x\u{3000}", "\r\ntrue\n", "é", "x\u{200b}"] {
        assert_eq!(text::trimmed(s), s.trim());
    }
}

#[test]
fn numbers_are_written_in_decimal() {
    for n in [0u64, 1, 9, 10, 99, 100, 1234567890, u64::MAX] {
        assert_eq!(text::decimal_text(n), n.to_string());
    }
}

#[test]
fn texts_are_split_into_lines() {
    for s in [
        "", "\n", "a", "a\n", "a\nb", "a\r\nb\r\n", "a\r", "a\r\n", "\r\n", "\n\nx", "a\rb\n", "é\nß\r",
    ] {
        let expected: Vec<&str> = s.lines().collect();
        assert_eq!(text::lines_of(s), expected, "{s:?}");
    }
}

#[test]
fn substrings_are_found() {
    for (s, needle) in [
        ("", ""),
        ("a", ""),
        ("", "a"),
        ("tool not found", "not found"),
        ("aaab", "aab"),
        ("abc", "abcd"),
        ("abc", "c"),
        ("abc", "d"),
        ("äöü", "öü"),
    ] {
        assert_eq!(text::has_substring(s, needle), s.contains(needle), "{s:?} {needle:?}");
    }
}

#[test]
fn texts_are_ordered_by_code_points() {
    let list = ["", "A", "B", "a", "aa", "ab", "b", "z", "é", "\u{ffff}", "\u{10000}"];
    for a in list {
        for b in list {
            assert_eq!(text::comes_before(a, b), a < b, "{a:?} {b:?}");
            assert_eq!(text::same_text(a, b), a == b);
        }
    }
}

#[test]
fn characters_are_found_and_cut_out() {
    let chars = text::chars_of("a/b/é");
    assert_eq!(chars, vec!['a', '/', 'b', '/', 'é']);
    assert_eq!(text::find_from(&chars, 0, '/'), 1);
    assert_eq!(text::find_from(&chars, 2, '/'), 3);
    assert_eq!(text::find_from(&chars, 4, '/'), 5);
    assert_eq!(text::find_from(&chars, 5, '/'), 5);
    assert_eq!(text::text_between(&chars, 2, 5), "b/é");
    assert_eq!(text::text_between(&chars, 3, 3), "");
}

#[test]
fn spans_read_as_people_write_them() {
    for (secs, nanos) in [
        (0u64, 0u32),
        (0, 1),
        (0, 999),
        (0, 1_000),
        (0, 1_500),
        (0, 999_999),
        (0, 1_000_000),
        (0, 200_000_000),
        (0, 200_000_001),
        (0, 999_999_999),
        (1, 0),
        (1, 1),
        (30, 500_000_000),
        (120, 0),
        (u64::MAX, 999_999_999),
    ] {
        let ours = Duration { secs, subsec_nanos: nanos };
        let theirs = std::time::Duration::new(secs, nanos);
        assert_eq!(ours.readable_text(), format!("{theirs:?}"));
        assert_eq!(ours.as_nanos(), theirs.as_nanos());
        assert_eq!(ours.as_secs(), theirs.as_secs());
    }
    for millis in [0u64, 1, 999, 1000, 1001, 51_200, u64::MAX] {
        let theirs = std::time::Duration::from_millis(millis);
        let ours = Duration::from_millis(millis);
        assert_eq!(ours.secs, theirs.as_secs());
        assert_eq!(ours.subsec_nanos, theirs.subsec_nanos());
    }
}

#[test]
fn time_does_not_run_backwards() {
    let early = Instant { nanos: 5 };
    let late = Instant { nanos: 12 };
    assert_eq!(late.elapsed_nanos(early), 7);
    assert_eq!(early.elapsed_nanos(late), 0);
}

#[test]
fn a_table_keeps_one_value_for_each_name() {
    let mut table: NameTable<u32> = NameTable::new();
    assert_eq!(table.len(), 0);
    assert!(!table.insert("b".to_string(), 1));
    assert!(!table.insert("a".to_string(), 2));
    assert!(table.insert("b".to_string(), 3));
    assert_eq!(table.len(), 2);
    assert_eq!(table.get("a"), Some(&2));
    assert_eq!(table.get("b"), Some(&3));
    assert_eq!(table.get("c"), None);
    assert_eq!(table.into_sorted(), vec![("a".to_string(), 2), ("b".to_string(), 3)]);
}
