//! Texts, numbers and orders, held against the standard library.
use wake::adapters::claude_decode::DirEntry;
use wake::order::{sort_ranked, text_before_or_same};
use wake::text::{
    ascii_upper, blank, concat2, concat3, contains, decimal_of, ends_with, find_last, hex_of, hex_padded_of,
    same_text, text_lines, trim, trim_end_matches,
};

const SAMPLES: &[&str] = &[
    "", " ", "a", " a", "a ", "\t\n a b \r\n", "\u{3000}x\u{2003}", "x.jsonl", ".jsonl", "a.jsonl.jsonl",
    "jsonl", "é ü", "a#b#c", "#", "a\nb", "a\r\nb\r\n", "\n", "\n\n", "a\r", "a\nb\r", "\r\n", "a\n\nb",
];

#[test]
fn trimming_and_blankness_agree_with_the_standard_library() {
    for s in SAMPLES {
        assert_eq!(trim(s), s.trim(), "{s:?}");
        assert_eq!(blank(s), s.trim().is_empty(), "{s:?}");
        assert_eq!(trim_end_matches(s, ".jsonl"), s.trim_end_matches(".jsonl"), "{s:?}");
    }
}

#[test]
fn every_white_space_character_is_blank() {
    let mut spaces = Vec::new();
    for n in 0..=0x10ffffu32 {
        if let Some(c) = char::from_u32(n) {
            if blank(&c.to_string()) {
                spaces.push(n);
            }
        }
    }
    let mut expected = vec![0x9, 0xa, 0xb, 0xc, 0xd, 0x20, 0x85, 0xa0, 0x1680];
    expected.extend(0x2000..=0x200au32);
    expected.extend([0x2028, 0x2029, 0x202f, 0x205f, 0x3000]);
    assert_eq!(spaces, expected);
}

#[test]
fn capitals_agree_with_the_standard_library() {
    for s in SAMPLES {
        assert_eq!(ascii_upper(s), s.to_ascii_uppercase(), "{s:?}");
    }
    assert_eq!(ascii_upper("azAZ`{09-é"), "AZAZ`{09-é");
}

#[test]
fn searching_agrees_with_the_standard_library() {
    for s in SAMPLES {
        for p in ["", "a", "#", "b", ".jsonl", "\n", "é"] {
            assert_eq!(contains(s, p), s.contains(p), "{s:?} {p:?}");
            assert_eq!(ends_with(s, p), s.ends_with(p), "{s:?} {p:?}");
            assert_eq!(same_text(s, p), *s == p, "{s:?} {p:?}");
            assert_eq!(text_before_or_same(s, p), *s <= p, "{s:?} {p:?}");
            assert_eq!(concat2(s, p), format!("{s}{p}"));
            assert_eq!(concat3(p, s, p), format!("{p}{s}{p}"));
        }
        let at = s.chars().collect::<Vec<_>>().iter().rposition(|c| *c == '#');
        assert_eq!(find_last(s, '#'), at, "{s:?}");
    }
}

#[test]
fn lines_agree_with_the_standard_library() {
    for s in SAMPLES {
        let expected: Vec<String> = s.lines().map(String::from).collect();
        assert_eq!(text_lines(s), expected, "{s:?}");
    }
}

#[test]
fn numbers_are_written_as_the_standard_library_writes_them() {
    for n in [0u64, 7, 9, 10, 11, 99, 100, 12345, u64::MAX] {
        assert_eq!(decimal_of(n), n.to_string());
        assert_eq!(hex_padded_of(n, 16), format!("{n:016x}"));
    }
    assert_eq!(hex_padded_of(0x1234, 2), "34");
    assert_eq!(hex_of(&[0, 15, 16, 255, 1], 4), "000f10ff");
}

#[test]
fn sorting_keeps_the_order_of_equals() {
    let names = ["b", "a.b", "long name", "a_b", "a", "a-b"];
    let entries = names
        .iter()
        .map(|n| DirEntry { name: n.to_string(), path: format!("/{n}"), is_dir: true })
        .collect();
    let sorted: Vec<String> = sort_ranked(entries).into_iter().map(|e| e.name).collect();
    assert_eq!(sorted, vec!["long name", "a.b", "a_b", "a-b", "a", "b"]);
}
