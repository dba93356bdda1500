//! Text helpers, held against the standard library.

use daly_bms_exporter::families::idx_label;
use daly_bms_exporter::text::{decimal, is_before, is_control, is_white_space, same_text};
use daly_bms_exporter::text_map::TextMap;

#[test]
fn character_classes_match_the_standard_library() {
    for n in 0..=0x10_FFFFu32 {
        if let Some(c) = char::from_u32(n) {
            assert_eq!(is_control(c), c.is_control(), "control {n:x}");
            assert_eq!(is_white_space(c), c.is_whitespace(), "white space {n:x}");
        }
    }
}

#[test]
fn decimal_matches_the_standard_library() {
    for n in [0, 7, 9, 10, 99, 100, 200, 404, 65_535, u64::MAX] {
        assert_eq!(decimal(n), n.to_string());
    }
}

#[test]
fn comparison_matches_the_standard_library() {
    let words = ["", "a", "A", "ab", "b", "SN1", "SN10", "SN2", "é", "z", "日本"];
    for a in words {
        for b in words {
            assert_eq!(same_text(a, b), a == b, "{a} {b}");
            assert_eq!(is_before(a, b), a < b, "{a} {b}");
        }
    }
}

#[test]
fn index_labels_are_padded() {
    for n in [0u32, 1, 9, 10, 32, 99, 100, 4_000_000_000] {
        assert_eq!(idx_label(n), format!("{n:02}"));
    }
    let labels: Vec<String> = (0..100).map(idx_label).collect();
    let mut sorted = labels.clone();
    sorted.sort();
    assert_eq!(labels, sorted);
}

#[test]
fn text_map_keeps_keys_in_order() {
    let mut m: TextMap<u32> = TextMap::new();
    for (i, key) in ["SN2", "SN10", "SN1", "A", "SN2"].iter().enumerate() {
        m.insert(key, i as u32);
    }
    let keys: Vec<&str> = (0..m.len()).map(|i| m.key_at(i)).collect();
    assert_eq!(keys, vec!["A", "SN1", "SN10", "SN2"]);
    assert_eq!(m.get("SN2"), Some(&4));
    assert_eq!(*m.value_at(2), 1);
    assert_eq!(m.get("SN3"), None);
}
