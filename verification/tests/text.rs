//! The text helpers, held against what the standard library does.
use gitten_shell::stats::{enabled, FrameTimes, Stats, RING};
use gitten_shell::text::{
    all_words_held, byte_count, chars_of, contains, copy_bytes, decimal_text, find,
    is_white_space, offset_of_column, push_decimal, push_right_aligned, same, same_bytes, slice,
    trim, trim_end_len,
};

#[test]
fn white_space_is_what_std_calls_it() {
    for n in 0..=0x10ffffu32 {
        if let Some(c) = char::from_u32(n) {
            assert_eq!(is_white_space(c), c.is_whitespace(), "{n:x}");
        }
    }
}

#[test]
fn trimming_is_what_std_does() {
    for s in ["", " ", "a", " a ", "\t\u{3000}a b\u{a0}\n", "é ", "  "] {
        assert_eq!(trim(s), s.trim());
        assert_eq!(trim_end_len(&chars_of(s)), s.trim_end().chars().count());
    }
}

#[test]
fn numbers_are_spelled_in_decimal() {
    for n in [0usize, 9, 10, 99, 100, 12345, usize::MAX] {
        assert_eq!(decimal_text(n), n.to_string());
    }
    let mut s = String::from("n=");
    push_decimal(&mut s, u64::MAX);
    assert_eq!(s, format!("n={}", u64::MAX));
    let mut s = String::new();
    push_right_aligned(&mut s, "42", 4);
    push_right_aligned(&mut s, "12345", 4);
    assert_eq!(s, "  4212345");
}

#[test]
fn parts_and_columns_are_found() {
    let v = chars_of("héllo");
    assert!(contains(&v, &chars_of("llo")));
    assert!(contains(&v, &chars_of("")));
    assert!(!contains(&v, &chars_of("lol")));
    assert_eq!(byte_count("héllo"), 6);
    assert_eq!(offset_of_column("héllo", 0), 0);
    assert_eq!(offset_of_column("héllo", 2), 3);
    assert_eq!(offset_of_column("héllo", 99), 6);
    assert_eq!(slice("héllo", 1, 3), "é");
    assert_eq!(slice("héllo", 0, 6), "héllo");
    assert_eq!(slice("héllo", 3, 3), "");
}

#[test]
fn texts_and_bytes_are_told_apart() {
    assert!(same("ab", "ab") && !same("ab", "abc") && !same("ab", "ac"));
    assert!(same_bytes(b"\xff\x00", b"\xff\x00") && !same_bytes(b"", b"\x00"));
    assert_eq!(copy_bytes(&vec![1, 2, 3]), vec![1, 2, 3]);
    let names = vec!["a".to_string(), "b".to_string(), "a".to_string()];
    assert_eq!(find(&names, "a"), Some(0));
    assert_eq!(find(&names, "b"), Some(1));
    assert_eq!(find(&names, "c"), None);
}

#[test]
fn every_word_of_a_query_must_be_somewhere() {
    let fields = vec![chars_of("git client"), chars_of("dark")];
    assert!(all_words_held(&chars_of("dark git"), &fields));
    assert!(all_words_held(&chars_of("  "), &fields));
    assert!(!all_words_held(&chars_of("dark light"), &fields));
}

#[test]
fn the_overlay_is_on_for_anything_but_a_zero() {
    assert!(enabled(Some("1")) && enabled(Some("")) && enabled(Some("00")));
    assert!(!enabled(Some("0")) && !enabled(None));
}

#[test]
fn frames_say_nothing_until_there_are_enough() {
    let mut s = Stats::new(714, "loaded".to_string());
    s.tick(None);
    for t in 0..7 {
        s.tick(Some(100 - t));
    }
    assert_eq!(s.frames(), None);
    s.tick(Some(50));
    assert_eq!(s.frames(), Some(FrameTimes { p50: 97, p99: 100, best: 50 }));
}

#[test]
fn a_full_ring_forgets_the_oldest_frame() {
    let mut s = Stats::new(0, String::new());
    s.tick(Some(1));
    for _ in 1..RING {
        s.tick(Some(10));
    }
    assert_eq!(s.frames().unwrap().best, 1);
    s.tick(Some(20));
    assert_eq!(s.frames().unwrap().best, 10, "the first frame was the oldest");
    assert_eq!(s.frames().unwrap().p99, 10);
    assert_eq!(s.n, RING + 1);
}

#[test]
fn the_rows_line_is_aligned() {
    let mut s = Stats::new(12, String::new());
    assert_eq!(s.rows(7), "rows    7 drawn /        12 total");
    s.reloaded(1234567890, "again".to_string());
    assert_eq!(s.rows(12345), "rows 12345 drawn / 1234567890 total");
    assert_eq!(s.load, "again");
}
