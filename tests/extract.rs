use stringer::config::StringerConfig;
use stringer::Stringer;

fn extract(input: &[u8], cfg: StringerConfig) -> Vec<(String, Option<u64>)> {
    let mut s = Stringer::new(input.to_vec());
    s.set_config(cfg);
    s.read_strings();
    s.results
        .iter()
        .map(|r| (r.string().to_string(), r.length()))
        .collect()
}

fn strings(input: &[u8], cfg: StringerConfig) -> Vec<String> {
    extract(input, cfg).into_iter().map(|(s, _)| s).collect()
}

fn min_one() -> StringerConfig {
    let mut c = StringerConfig::new();
    c.set_window_min_size(1);
    c
}

#[test]
fn short_runs_below_default_minimum() {
    assert!(strings(b"AB\x00CD", StringerConfig::default()).is_empty());
}

#[test]
fn punctuation_ends_a_run() {
    let mut c = min_one();
    c.special_include(false);
    c.length_include(true);
    let r = extract(b"Hello\x00World!", c);
    assert_eq!(
        r,
        vec![("Hello".to_string(), Some(5)), ("World".to_string(), Some(5))]
    );
}

#[test]
fn split_cuts_long_runs() {
    let mut c = min_one();
    c.split(3);
    assert_eq!(strings(b"abcdef", c), vec!["abc", "def"]);
}

#[test]
fn whitespace_joins_words() {
    let mut c = min_one();
    c.whitespace_include(true);
    assert_eq!(strings(b"foo123 bar", c), vec!["foo123 bar"]);
}

#[test]
fn pattern_filters_results() {
    let mut c = min_one();
    assert!(c.regex("^c".to_string()).is_ok());
    assert_eq!(strings(b"cat dog", c), vec!["cat"]);
}

#[test]
fn runs_merge_across_a_seam() {
    assert_eq!(strings(b"abc", min_one()), vec!["abc"]);
    assert_eq!(strings(b"def", min_one()), vec!["def"]);
    assert_eq!(strings(b"abcdef", min_one()), vec!["abcdef"]);
}

#[test]
fn only_rejected_bytes_give_nothing() {
    assert!(strings(b"\x00\x01 !\n\r\t\xff", min_one()).is_empty());
    let mut c = min_one();
    c.special_include(true);
    c.whitespace_include(true);
    assert!(strings(b"\x00\x01\n\r\xff\x7f", c).is_empty());
}

#[test]
fn empty_input_gives_nothing() {
    assert!(strings(b"", min_one()).is_empty());
}

#[test]
fn zero_minimum_gives_no_empty_runs() {
    let mut c = StringerConfig::new();
    c.set_window_min_size(0);
    assert!(strings(b"\x00\x00\x00", c).is_empty());
    let mut c = StringerConfig::new();
    c.set_window_min_size(0);
    assert_eq!(strings(b"\x00a\x00", c), vec!["a"]);
}

#[test]
fn maximum_caps_runs() {
    let mut c = min_one();
    c.set_window_max_size(3);
    assert_eq!(strings(b"abcdefg", c), vec!["abc", "def", "g"]);
}

#[test]
fn maximum_below_minimum_does_not_cap() {
    let mut c = StringerConfig::new();
    c.set_window_min_size(4);
    c.set_window_max_size(2);
    assert_eq!(strings(b"abcdefgh\x00ab", c), vec!["abcdefgh"]);
}

#[test]
fn split_and_maximum_smaller_wins() {
    let mut c = min_one();
    c.set_window_max_size(2);
    c.split(3);
    assert_eq!(strings(b"abcde", c), vec!["ab", "cd", "e"]);
    let mut c = min_one();
    c.set_window_max_size(5);
    c.split(2);
    assert_eq!(strings(b"abcde", c), vec!["ab", "cd", "e"]);
}

#[test]
fn pieces_below_minimum_are_dropped() {
    let mut c = StringerConfig::new();
    c.set_window_min_size(2);
    c.split(3);
    assert_eq!(strings(b"abcdefg", c), vec!["abc", "def"]);
}

#[test]
fn line_breaks_included_when_asked() {
    let mut c = min_one();
    c.line_include(true);
    assert_eq!(strings(b"ab\ncd\re", c), vec!["ab\ncd\re"]);
    assert_eq!(strings(b"ab\ncd", min_one()), vec!["ab", "cd"]);
}

#[test]
fn special_includes_punctuation() {
    let mut c = min_one();
    c.special_include(true);
    assert_eq!(strings(b"a!b~c\x00d", c), vec!["a!b~c", "d"]);
}

#[test]
fn whitespace_set_is_space_tab_vtab() {
    let mut c = min_one();
    c.whitespace_include(true);
    assert_eq!(strings(b"a b\tc\x0bd\x0ce", c), vec!["a b\tc\x0bd", "e"]);
}

#[test]
fn lengths_absent_by_default() {
    assert_eq!(
        extract(b"abcd", StringerConfig::default()),
        vec![("abcd".to_string(), None)]
    );
}

#[test]
fn filtering_again_changes_nothing() {
    let mut c = min_one();
    assert!(c.regex("o".to_string()).is_ok());
    let mut s = Stringer::new(b"one two three four".to_vec());
    s.set_config(c);
    s.read_strings();
    let first: Vec<String> = s.results.iter().map(|r| r.string().to_string()).collect();
    s.read_strings();
    let second: Vec<String> = s.results.iter().map(|r| r.string().to_string()).collect();
    assert_eq!(first, vec!["one", "two", "four"]);
    assert_eq!(first, second);
}

#[test]
fn last_byte_belongs_to_the_run() {
    assert_eq!(strings(b"\x00\x00abcd", StringerConfig::default()), vec!["abcd"]);
    assert_eq!(strings(b"z", min_one()), vec!["z"]);
}

#[test]
fn classification_follows_switches() {
    let mut c = StringerConfig::new();
    assert!(c.accepts_byte(b'a') && c.accepts_byte(b'Z') && c.accepts_byte(b'7'));
    assert!(!c.accepts_byte(b'!') && !c.accepts_byte(b' ') && !c.accepts_byte(b'\n'));
    c.special_include(true);
    assert!(c.accepts_byte(b'!') && c.accepts_byte(b'~') && c.accepts_byte(b'@'));
    assert!(!c.accepts_byte(b' '));
    c.whitespace_include(true);
    assert!(c.accepts_byte(b' ') && c.accepts_byte(b'\t') && c.accepts_byte(0x0b));
    assert!(!c.accepts_byte(b'\n') && !c.accepts_byte(0x0c));
    c.line_include(true);
    assert!(c.accepts_byte(b'\n') && c.accepts_byte(b'\r'));
    assert!(!c.accepts_byte(0) && !c.accepts_byte(0x7f) && !c.accepts_byte(0x80));
}

#[test]
fn retain_marked_keeps_marked_in_order() {
    let mut s = Stringer::new(b"aa bb cc".to_vec());
    s.set_config(min_one());
    s.read_strings();
    stringer::retain_marked(&mut s.results, &vec![true, false, true]);
    let kept: Vec<String> = s.results.iter().map(|r| r.string().to_string()).collect();
    assert_eq!(kept, vec!["aa", "cc"]);
}
