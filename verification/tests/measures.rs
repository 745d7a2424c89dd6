use tamandua_analyzers::baseline::{hour_at, ProcessBaseline, SystemBaseline};
use tamandua_analyzers::bytes::{count_bytes, find_bytes, read_le16, read_le32};
use tamandua_analyzers::ids::IdSource;
use tamandua_analyzers::risk::RiskScore;
use tamandua_analyzers::statistics::{HourlyPattern, RollingStats};
use tamandua_analyzers::telemetry::Metadata;
use tamandua_analyzers::text::{
    contains, contains_any, decimal_text, ends_with, ends_with_any, fraction_text, hex_lower_text,
    hex_padded_text, hex_upper_text, hundredths_text, replace_char, round_to,
    signed_hundredths_text, starts_with, tenths_text, trim_end_char,
};
use tamandua_analyzers::textset::TextSet;
use tamandua_analyzers::wide::{at_most, difference, multiple, product, Wide};
use tamandua_analyzers::words::{
    count_char, is_blank, is_control, is_whitespace, parse_index, pieces_of, words_of,
};

#[test]
fn a_series_forgets_its_oldest_values() {
    let mut stats = RollingStats::new(3);
    assert_eq!(stats.mean(), 0);
    assert_eq!(stats.std_dev(), 0);
    for (i, value) in [9_000, 1_000, 2_000, 3_000].iter().enumerate() {
        stats.add(*value, i as u64 * 10);
    }
    assert_eq!(stats.count(), 3);
    assert_eq!(stats.capacity(), 3);
    assert_eq!(stats.entry(0), (1_000, 10));
    assert_eq!(stats.mean(), 2_000_000);
    assert_eq!(stats.variance(), 666_666);
    assert_eq!(stats.std_dev(), 816_496);
    assert_eq!(stats.zscore(3_000), 1_224_745);
    assert_eq!(stats.zscore(1_000), -1_224_745);
    assert_eq!(stats.zscore(2_000), 0);
    assert_eq!(stats.values_in_window(15, 30), vec![2_000, 3_000]);
    assert_eq!(stats.values_in_window(100, 30), vec![1_000, 2_000, 3_000]);
    assert!(stats.values_in_window(0, 31).is_empty());
}

#[test]
fn a_series_takes_negative_values() {
    let mut stats = RollingStats::new(10);
    for (i, value) in [-4_000, 1_000, -3_000].iter().enumerate() {
        stats.add(*value, i as u64);
    }
    assert_eq!(stats.mean(), -2_000_000);
    assert_eq!(stats.variance(), 4_666_666);
    assert_eq!(stats.zscore(-2_000), 0);
    assert!(stats.zscore(-5_000) < 0);
    assert_eq!(stats.entry(0), (-4_000, 0));
    let mut long = RollingStats::new(usize::MAX);
    long.add(1_000, 0);
    long.add(0, 0);
    assert_eq!(long.mean(), 500_000);
    assert_eq!(long.capacity(), usize::MAX);
}

#[test]
fn the_newest_values_count() {
    let mut stats = RollingStats::new(4);
    for i in 0..100 {
        stats.add(i * 1_000 - 50_000, i as u64);
    }
    assert_eq!(stats.count(), 4);
    assert_eq!(stats.mean(), 47_500_000);
    assert_eq!(stats.variance(), 1_250_000);
}

#[test]
fn equal_values_have_no_score() {
    let mut stats = RollingStats::new(10);
    for i in 0..7 {
        stats.add(1_000, i);
    }
    assert_eq!(stats.variance(), 0);
    assert_eq!(stats.zscore(99_000), 0);
    let mut none = RollingStats::new(0);
    none.add(5, 1);
    none.add(6, 2);
    assert_eq!(none.count(), 1);
    assert_eq!(none.entry(0), (6, 2));
}

#[test]
fn hours_of_a_day() {
    let mut pattern = HourlyPattern::default();
    for _ in 0..99 {
        pattern.record(10);
    }
    pattern.record(24);
    assert!(!pattern.is_low_activity_period(3));
    assert!(!pattern.is_unusual(3, 500_000));
    pattern.record(3);
    assert_eq!(pattern.count_at(3), 1);
    assert_eq!(pattern.expected_rate(10), 990_000);
    assert_eq!(pattern.expected_rate(3), 10_000);
    assert_eq!(pattern.expected_rate(24), 0);
    assert!(pattern.is_low_activity_period(3));
    assert!(!pattern.is_low_activity_period(10));
    assert!(pattern.is_unusual(10, 2_000_000));
    assert!(pattern.is_unusual(3, 500_000));
    assert!(!pattern.is_unusual(3, 800_000));

    let again = HourlyPattern::from_counts(&(0..24).map(|h| pattern.count_at(h)).collect());
    assert_eq!(again.unwrap().expected_rate(10), 990_000);
    assert!(HourlyPattern::from_counts(&vec![1, 2]).is_none());
    assert!(HourlyPattern::from_counts(&vec![u64::MAX; 24]).is_none());
    assert_eq!(hour_at(0), 0);
    assert_eq!(hour_at(3_600_000 * 25), 1);
}

#[test]
fn what_a_process_does_is_remembered() {
    let mut baseline = ProcessBaseline::new("Test.EXE");
    assert_eq!(baseline.name, "test.exe");
    baseline.record_child("CMD.exe");
    assert!(baseline.known_children.contains("cmd.exe"));
    baseline.record_network("Example.COM:443", 5);
    assert!(baseline.known_network_destinations.contains("example.com:443"));
    assert_eq!(baseline.network_rate_stats.count(), 1);
    baseline.record_file_op("/Home/User/file.txt", 6);
    assert!(baseline.known_file_patterns.contains("/home/user"));
    baseline.record_file_in(None, 7);
    baseline.record_file_in(Some("/X"), 8);
    assert!(baseline.known_file_patterns.contains("/x"));
    assert_eq!(baseline.file_rate_stats.count(), 3);
    baseline.record_registry_op("HKLM\\Software\\Microsoft\\X");
    assert!(baseline.known_registry_patterns.contains("hklm\\software"));
    baseline.record_registry_op("HKLM");
    assert_eq!(baseline.known_registry_patterns.len(), 1);
}

#[test]
fn destinations_are_rare_until_seen_often() {
    let mut system = SystemBaseline::starting_at(10);
    assert!(!system.learning_complete);
    assert_eq!(system.learning_start_time, 10);
    for _ in 0..4 {
        system.record_destination("A.example:1");
        assert!(system.is_rare_destination("a.EXAMPLE:1"));
    }
    system.record_destination("a.example:1");
    assert!(!system.is_rare_destination("a.example:1"));
    assert!(system.is_rare_destination("b.example:1"));
    system.get_or_create_process("P.exe").record_child("c");
    assert!(system
        .process_baselines
        .get("p.exe")
        .unwrap()
        .known_children
        .contains("c"));
}

#[test]
fn scores_have_a_ceiling_and_fall_with_time() {
    let start = 100_000_000;
    let mut score = RiskScore::starting_at("p", start);
    score.add_factor_at("a", 70_000_000, "x", start + 1_000);
    score.add_factor_at("b", 70_000_000, "y", start + 2_000);
    assert_eq!(score.score, 100_000_000);
    assert_eq!(score.factors.len(), 2);
    score.apply_decay_at(10_000_000, start + 2_000 + 5_400_000);
    assert_eq!(score.score, 85_000_000);
    assert_eq!(score.factors.len(), 2);
    score.apply_decay_at(10_000_000, start + 86_401_000);
    assert_eq!(score.factors.len(), 1);
    assert_eq!(score.factors[0].name, "b");
    let snapshot = score.snapshot_at(Some(7), 99);
    assert_eq!(snapshot.pid, Some(7));
    assert_eq!(snapshot.snapshot_at, 99);
    assert_eq!(snapshot.last_update, start + 86_401_000);
    score.apply_decay_at(1_000_000_000, start + 186_401_000);
    assert_eq!(score.score, 0);
    assert!(score.snapshot(None).snapshot_at > 0);
}

#[test]
fn numbers_as_text() {
    assert_eq!(decimal_text(0), "0");
    assert_eq!(decimal_text(18_446_744_073_709_551_615), format!("{}", u64::MAX));
    assert_eq!(hex_upper_text(0xdead_beef), "DEADBEEF");
    assert_eq!(hex_lower_text(0), "0");
    assert_eq!(hex_lower_text(0xdead_beef), "deadbeef");
    assert_eq!(hex_padded_text(0xab, 4), "00AB");
    assert_eq!(hex_padded_text(0xabcdef, 4), "ABCDEF");
    assert_eq!(hundredths_text(1_234), "12.34");
    assert_eq!(hundredths_text(5), "0.05");
    assert_eq!(tenths_text(123), "12.3");
    assert_eq!(signed_hundredths_text(-54_999), "-0.05");
    assert_eq!(signed_hundredths_text(12_050_000), "12.05");
    assert_eq!(round_to(14_999, 10_000), 1);
    assert_eq!(round_to(15_001, 10_000), 2);
    assert_eq!(fraction_text(500_000), format!("{}", 0.5f32));
    assert_eq!(fraction_text(850_000), format!("{}", 0.85f32));
    assert_eq!(fraction_text(1_000_000), format!("{}", 1.0f32));
}

#[test]
fn pieces_of_text() {
    assert_eq!(words_of("  a\tb \u{a0}c\u{2003}d\n"), vec!["a", "b", "c", "d"]);
    assert!(words_of(" \t ").is_empty());
    assert!(is_blank(" \u{3000}"));
    assert!(!is_blank(" x"));
    for code in 0..0x1_1000u32 {
        if let Some(c) = char::from_u32(code) {
            assert_eq!(is_whitespace(c), c.is_whitespace(), "{:x}", code);
            assert_eq!(is_control(c), c.is_control(), "{:x}", code);
        }
    }
    assert_eq!(count_char("a b c", ' '), 2);
    assert_eq!(pieces_of("a\\\\b\\", '\\'), vec!["a", "", "b", ""]);
    assert_eq!(pieces_of("", '.'), vec![""]);
    for text in ["0", "7", "+12", "007", "", "+", "-1", "1x", "18446744073709551616", "٣"] {
        assert_eq!(parse_index(text), text.parse::<usize>().ok(), "{}", text);
    }
    assert!(contains_any("abcdef", &["x", "cd"]));
    assert!(!contains_any("abcdef", &["x", "dc"]));
    assert!(contains_any("abc", &[""]));
    assert!(ends_with_any("a.zip", &[".7z", ".zip"]));
    assert_eq!(trim_end_char("a\\\\", '\\'), "a");
    assert!(contains("n\u{e3}o", "\u{e3}"));
    assert!(!contains("nao", "\u{e3}"));
    assert!(contains("", ""));
    assert!(!contains("ab", "abc"));
    assert!(starts_with("abc", "ab") && starts_with("abc", ""));
    assert!(!starts_with("abc", "bc") && !starts_with("a", "ab"));
    assert!(ends_with("abc", "bc") && ends_with("abc", ""));
    assert!(!ends_with("abc", "ab") && !ends_with("c", "bc"));
    assert_eq!(replace_char("\\a\\\\\u{e3}b\\", '\\', "/"), "/a//\u{e3}b/");
    assert_eq!(replace_char("ab", 'x', "y"), "ab");
}

#[test]
fn bytes_are_found_and_counted() {
    assert!(find_bytes(b"hello", b"ell"));
    assert!(!find_bytes(b"hello", b"elo"));
    assert!(!find_bytes(b"ab", b"abc"));
    assert_eq!(count_bytes(&[0x90; 6], &[0x90, 0x90]), 5);
    assert_eq!(count_bytes(b"abcabc", b"bc"), 2);
    assert_eq!(count_bytes(b"abc", b"x"), 0);
    assert_eq!(read_le16(&[0x64, 0x86], 0), 0x8664);
    assert_eq!(read_le32(&[0, 1, 2, 3, 4], 1), 0x0403_0201);
}

#[test]
fn texts_are_kept_once() {
    let mut set = TextSet::new();
    set.insert("b".to_string());
    set.insert("a".to_string());
    set.insert("b".to_string());
    assert_eq!(set.len(), 2);
    assert!(set.contains("a"));
    assert!(!set.contains("c"));
    assert!(set.prefixes("banana"));
    assert!(!set.prefixes("cab"));
    assert_eq!(set.first(1).len(), 1);

    let mut metadata = Metadata::new();
    metadata.insert("k".to_string(), "1".to_string());
    metadata.insert("k".to_string(), "2".to_string());
    assert_eq!(metadata.len(), 1);
    assert_eq!(metadata.get("k"), Some(&"2".to_string()));
    assert_eq!(metadata.get("j"), None);
}

#[test]
fn ids_are_drawn_in_order_and_then_at_random() {
    let mut ids = IdSource::of(vec!["a".to_string()]);
    assert_eq!(ids.draw(), "a");
    let (x, y) = (ids.draw(), ids.draw());
    assert_ne!(x, y);
    assert_eq!(x.len(), 36);
}

#[test]
fn numbers_of_two_words() {
    let of = |high: u128, low: u128| Wide { high, low };
    let parts = |w: Wide| (w.high, w.low);
    assert_eq!(parts(product(u128::MAX, u128::MAX)), (u128::MAX - 1, 1));
    assert_eq!(parts(product(1 << 100, 1 << 30)), (4, 0));
    assert_eq!(parts(product(7, 6)), (0, 42));
    assert_eq!(parts(difference(of(2, 0), of(0, 1))), (1, u128::MAX));
    assert_eq!(parts(difference(of(2, 5), of(1, 3))), (1, 2));
    assert_eq!(parts(multiple(of(1, u128::MAX), 3)), (5, u128::MAX - 2));
    assert!(at_most(of(1, 2), of(1, 2)) && at_most(of(0, 9), of(1, 0)));
    assert!(!at_most(of(1, 3), of(1, 2)));
}

#[test]
fn long_series_of_large_values() {
    let mut stats = RollingStats::new(2_000_000);
    for i in 0..1_200_000u64 {
        stats.add(if i % 2 == 0 { i32::MAX } else { -i32::MAX }, i);
    }
    let most = i32::MAX as u128;
    assert_eq!(stats.count(), 1_200_000);
    assert_eq!(stats.mean(), 0);
    assert_eq!(stats.variance(), most * most);
    assert_eq!(stats.std_dev(), most * 1_000);
    assert_eq!(stats.zscore(i32::MAX as i64), 1_000_000);
    assert_eq!(stats.zscore(-(i32::MAX as i64)), -1_000_000);
    assert!(stats.zscore(i64::MIN) < stats.zscore(i64::MAX));
}
