use binmap::corpus::deep::{heaviest, Record};
use binmap::corpus::embedded::{crc8, Ring};
use binmap::corpus::generics::{checksum, exercise, Pipeline};
use binmap::corpus::tiny::{render, tally};
use binmap::corpus::wasm::{decode, encode};
use binmap::corpus::workspace::{describe, parse, resolve, Setting};

fn count_of<'a>(counts: &'a [(String, usize)], word: &str) -> Option<&'a usize> {
    counts.iter().find(|(w, _)| w == word).map(|(_, n)| n)
}

fn value_of<'a>(settings: &'a [Setting], key: &str) -> Option<&'a String> {
    settings.iter().find(|s| s.key == key).map(|s| &s.value)
}

#[test]
fn a_full_ring_refuses_rather_than_panicking() {
    let mut ring: Ring<2> = Ring::new();
    assert!(ring.push(1));
    assert!(ring.push(2));
    assert!(!ring.push(3), "a dropped sample is recoverable; a reset is not");
    assert!(ring.is_full());
}

#[test]
fn it_wraps_around_its_own_capacity() {
    let mut ring: Ring<3> = Ring::new();
    for byte in 1..=3 {
        ring.push(byte);
    }
    assert_eq!(ring.pop(), Some(1));
    assert!(ring.push(4));
    assert_eq!(ring.pop(), Some(2));
    assert_eq!(ring.pop(), Some(3));
    assert_eq!(ring.pop(), Some(4));
    assert!(ring.is_empty());
}

#[test]
fn the_checksum_is_stable() {
    assert_eq!(crc8(&[]), 0xFF);
    assert_eq!(crc8(b"binmap"), crc8(b"binmap"));
    assert_ne!(crc8(b"binmap"), crc8(b"binmaq"));
}

#[test]
fn a_ring_of_nothing_is_both_empty_and_full() {
    let mut ring: Ring<0> = Ring::new();
    assert!(ring.is_empty());
    assert!(ring.is_full());
    assert!(!ring.push(1));
    assert_eq!(ring.pop(), None);
    assert_eq!(ring.len(), 0);
}

#[test]
fn the_checksum_of_one_byte_is_known() {
    // 0xFF shifted through eight rounds of the 0x31 polynomial.
    assert_eq!(crc8(&[0x00]), 0xAC);
}

#[test]
fn distinct_keeps_one_of_each_in_order() {
    let mut pipeline: Pipeline<u32> = Pipeline::new();
    pipeline.push(3).push(1).push(3);
    assert_eq!(pipeline.distinct(), vec![1, 3]);
}

#[test]
fn every_instantiation_is_exercised() {
    assert_eq!(exercise(), 8);
}

#[test]
fn the_checksum_wraps_when_overflow_checks_are_off() {
    // 200 + 100 = 300, which does not fit in a u8. Wrapped: 44.
    assert_eq!(checksum(&[200, 100]), 44);
}

#[test]
fn distinct_orders_strings_and_pairs_too() {
    let mut words: Pipeline<String> = Pipeline::new();
    words.push("verify".to_string()).push("parse".to_string()).push("verify".to_string());
    assert_eq!(words.distinct(), vec!["parse".to_string(), "verify".to_string()]);
    assert_eq!(words.len(), 3);
    assert_eq!(*words.stage(1), "parse");

    let mut pairs: Pipeline<(u8, char)> = Pipeline::new();
    pairs.push((2, 'a')).push((1, 'b')).push((1, 'a'));
    assert_eq!(pairs.distinct(), vec![(1, 'a'), (1, 'b'), (2, 'a')]);
    assert!(!pairs.is_empty());
}

#[test]
fn every_word_is_counted_once_per_appearance() {
    let counts = tally(&["a", "b", "a"]);
    assert_eq!(count_of(&counts, "a"), Some(&2));
    assert_eq!(count_of(&counts, "b"), Some(&1));
}

#[test]
fn the_tally_is_in_word_order() {
    let counts = tally(&["then", "measure", "then"]);
    assert_eq!(counts, vec![("measure".to_string(), 1), ("then".to_string(), 2)]);
}

#[test]
fn rendering_lists_every_word() {
    let rendered = render(&tally(&["alpha", "beta"]));
    assert!(rendered.contains("alpha"));
    assert!(rendered.contains("beta"));
}

#[test]
fn the_report_reads_the_way_the_binary_prints_it() {
    let words = ["measure", "then", "claim", "measure", "then", "verify"];
    let mut expected = String::new();
    for (word, count) in [("claim", 1usize), ("measure", 2), ("then", 2), ("verify", 1)] {
        expected.push_str(&format!("{word:<12} {count:>4} {:>8.2}%\n", count as f64 * 100.0 / 6.0));
    }
    assert_eq!(render(&tally(&words)), expected);
}

#[test]
fn a_share_is_rounded_as_the_float_would_be() {
    for count in [0usize, 1, 2, 3, 5, 7, 11, 600, 123_457] {
        let rendered = render(&vec![("w".to_string(), count)]);
        let expected = format!("{:<12} {count:>4} {:>8.2}%\n", "w", count as f64 * 100.0 / 6.0);
        assert_eq!(rendered, expected);
    }
}

#[test]
fn a_run_round_trips() {
    let input = b"aaabbbccccd";
    assert_eq!(decode(&encode(input)), input);
}

#[test]
fn a_run_longer_than_a_byte_can_count_is_split() {
    let input = vec![7u8; 300];
    let encoded = encode(&input);
    assert_eq!(encoded.len(), 4, "300 does not fit in one length byte");
    assert_eq!(decode(&encoded), input);
}

#[test]
fn nothing_encodes_to_nothing() {
    assert!(encode(&[]).is_empty());
    assert!(decode(&[]).is_empty());
}

#[test]
fn a_run_is_encoded_as_count_then_byte() {
    assert_eq!(encode(b"aab"), vec![2, b'a', 1, b'b']);
    // A trailing odd byte is not a pair, and decodes to nothing.
    assert_eq!(decode(&[3, b'x', 9]), b"xxx".to_vec());
}

#[test]
fn the_binary_sees_both_libraries() {
    let text = "a = 1\n";
    assert_eq!(describe(text), "a=1");
    assert_eq!(parse(text).len(), 1);
}

#[test]
fn a_later_line_wins() {
    assert_eq!(value_of(&resolve("a = 1\na = 2\n"), "a").map(String::as_str), Some("2"));
}

#[test]
fn the_summary_is_ordered_so_it_can_be_compared() {
    assert_eq!(describe("b = 2\na = 1\n"), "a=1 b=2");
}

#[test]
fn comments_and_blank_lines_are_not_settings() {
    let parsed = parse("# a comment\n\nopt-level = 3\n  lto = fat  \n");
    assert_eq!(parsed.len(), 2);
    assert_eq!(parsed[0], Setting { key: "opt-level".into(), value: "3".into() });
    assert_eq!(parsed[1].value, "fat");
}

#[test]
fn a_line_without_an_equals_is_skipped_rather_than_guessed_at() {
    assert!(parse("just some words").is_empty());
}

fn fixture() -> Vec<Record> {
    vec![
        Record { name: "core::fmt".into(), bytes: 41208, tags: vec!["formatting".into()] },
        Record { name: "app::router".into(), bytes: 2044, tags: vec!["yours".into()] },
        Record { name: "core::panicking".into(), bytes: 8814, tags: vec!["panic".into()] },
    ]
}

#[test]
fn matching_records_come_back_heaviest_first() {
    let kept = heaviest(fixture(), "^core::");
    assert_eq!(kept.len(), 2);
    assert_eq!(kept[0].name, "core::fmt");
    assert_eq!(kept[1].name, "core::panicking");
}

#[test]
fn a_pattern_that_does_not_compile_keeps_nothing_rather_than_everything() {
    assert!(heaviest(fixture(), "core::[").is_empty());
}

#[test]
fn records_of_equal_weight_keep_their_order() {
    let records = vec![
        Record { name: "a::one".into(), bytes: 10, tags: Vec::new() },
        Record { name: "a::two".into(), bytes: 30, tags: Vec::new() },
        Record { name: "a::three".into(), bytes: 10, tags: Vec::new() },
    ];
    let names: Vec<String> = heaviest(records, "a::").into_iter().map(|r| r.name).collect();
    assert_eq!(names, vec!["a::two", "a::one", "a::three"]);
    assert!(heaviest(Vec::new(), "(").is_empty());
}
