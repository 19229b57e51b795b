use snowclaw::order::{stable_order, TextKey};
use snowclaw::score::rank_score;
use snowclaw::text::case::to_ascii_lowercase;
use snowclaw::text::number::{i64_text, parse_u64, parse_up_to, u128_text, u64_text};
use snowclaw::text::pattern::{
    contains, join, rsplit_tail, split, split_once, split_once_str, starts_with, strip_prefix,
    trim_start_matches,
};
use snowclaw::text::space::{is_blank, split_whitespace, trim};
use snowclaw::text::{len_bytes, prefix_bytes, suffix_bytes};
use snowclaw::text_map::TextMap;
use snowclaw::time::{format_time, time_date, time_day};

#[test]
fn patterns() {
    assert!(starts_with("abc", "ab") && !starts_with("abc", "b"));
    assert!(contains("abc", "bc") && contains("abc", "") && !contains("abc", "ac"));
    assert_eq!(strip_prefix("abc", "a").as_deref(), Some("bc"));
    assert_eq!(strip_prefix("abc", "b"), None);
    assert_eq!(trim_start_matches("ababc", "ab"), "c");
    assert_eq!(split_once("a:b:c", ':'), Some(("a".to_string(), "b:c".to_string())));
    assert_eq!(split_once_str("a\n\nb", "\n\n"), Some(("a".to_string(), "b".to_string())));
    assert_eq!(split_once("abc", ':'), None);
    assert_eq!(rsplit_tail("a/b/c", '/'), "c");
    assert_eq!(split(":a:", ':'), vec!["", "a", ""]);
    assert_eq!(join(&vec!["a".to_string(), "b".to_string()], ", "), "a, b");
}

#[test]
fn white_space() {
    assert_eq!(trim(" \t\u{3000}a b\n"), "a b");
    assert!(is_blank("\u{a0} ") && !is_blank("."));
    assert_eq!(split_whitespace(" a  b\nc "), vec!["a", "b", "c"]);
}

#[test]
fn numbers() {
    assert_eq!(u64_text(0), "0");
    assert_eq!(u64_text(u64::MAX), u64::MAX.to_string());
    assert_eq!(i64_text(i64::MIN), i64::MIN.to_string());
    assert_eq!(u128_text(u128::MAX), u128::MAX.to_string());
    assert_eq!(parse_u64("+007"), "+007".parse().ok());
    for s in ["", "+", "-1", "1a", "18446744073709551616", " 1"] {
        assert_eq!(parse_u64(s), None, "{s}");
    }
    assert_eq!(parse_up_to("255", 255), Some(255));
    assert_eq!(parse_up_to("256", 255), None);
}

#[test]
fn bytes_of_texts() {
    assert_eq!(len_bytes("aé…"), 6);
    assert_eq!(prefix_bytes("aé…", 3), "aé");
    assert_eq!(suffix_bytes("aé…", 3), "…");
    assert_eq!(to_ascii_lowercase("AÉz"), "aÉz");
}

#[test]
fn orders_are_stable() {
    let keys: Vec<u64> = vec![2, 1, 2, 3];
    assert_eq!(stable_order(&keys, false), vec![1, 0, 2, 3]);
    assert_eq!(stable_order(&keys, true), vec![3, 0, 2, 1]);
    let names: Vec<TextKey> = ["b", "a", "ab"].iter().map(|s| TextKey::of(s)).collect();
    assert_eq!(stable_order(&names, false), vec![1, 2, 0]);
}

#[test]
fn scores_order_as_numbers() {
    let mut numbers = vec![1.5, -2.0, 0.0, f64::INFINITY, -0.25, 1e-300];
    numbers.sort_by_key(|x: &f64| rank_score(x.to_bits()));
    assert_eq!(numbers, vec![-2.0, -0.25, 0.0, 1e-300, 1.5, f64::INFINITY]);
}

#[test]
fn points_in_time() {
    assert_eq!(format_time(0), "1970-01-01T00:00:00+00:00");
    assert_eq!(format_time(i64::MAX), "");
    assert_eq!(time_date(86_400), "1970-01-02");
    assert_eq!(time_date(i64::MIN), "");
    assert_eq!(time_day(0), 719_163);
    assert_eq!(time_day(-1), 719_162);
}

#[test]
fn text_maps_keep_the_order_of_entry() {
    let mut m: TextMap<u8> = TextMap::new();
    m.insert("b".to_string(), 1);
    m.insert("a".to_string(), 2);
    m.insert("b".to_string(), 3);
    assert_eq!(m.len(), 2);
    assert_eq!(m.entry_at(0), (&"b".to_string(), &3));
    assert_eq!(m.remove("b"), Some(3));
    assert_eq!(m.get("b"), None);
    assert!(m.contains_key("a"));
}
