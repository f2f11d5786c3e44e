use stringer::args::Args;
use stringer::config::{format_from_lower, format_from_name, OutputFormat, StringerConfig};
use stringer::error::StringerError;
use stringer::pattern::Pattern;

#[test]
fn defaults() {
    let c = StringerConfig::default();
    assert_eq!(c.window_min_size, 4);
    assert_eq!(c.window_max_size, 0);
    assert!(!c.special);
    assert!(!c.whitespace_include);
    assert!(!c.line_include);
    assert!(!c.length);
    assert_eq!(c.split, 0);
    assert!(c.regex.is_none());
    assert_eq!(c.output_format, OutputFormat::Literal);
}

#[test]
fn invalid_pattern_is_an_error() {
    let mut c = StringerConfig::new();
    let e = c.regex("foo(bar".to_string());
    assert!(e.is_err());
    assert_eq!(e.unwrap_err().message(), "unable to compile provided regex");
    assert!(c.regex.is_none());
}

#[test]
fn valid_pattern_is_kept() {
    let mut c = StringerConfig::new();
    assert!(c.regex("^a+$".to_string()).is_ok());
    assert_eq!(c.regex.as_ref().unwrap().as_str(), "^a+$");
}

#[test]
fn pattern_new_reports_compilation() {
    assert!(Pattern::new("[".to_string()).is_none());
    assert!(Pattern::new("a|b".to_string()).is_some());
}

#[test]
fn format_names_ignore_case() {
    assert_eq!(format_from_name("JSON"), OutputFormat::JSON);
    assert_eq!(format_from_name("Xml"), OutputFormat::XML);
    assert_eq!(format_from_name("LITERAL"), OutputFormat::Literal);
    assert_eq!(format_from_name("yaml"), OutputFormat::Literal);
    assert_eq!(format_from_lower("json"), OutputFormat::JSON);
    assert_eq!(format_from_lower("JSON"), OutputFormat::Literal);
}

#[test]
fn config_from_args_takes_defaults() {
    let c = StringerConfig::from_args(Args::default());
    assert_eq!(c.window_min_size, 4);
    assert_eq!(c.window_max_size, 0);
    assert!(!c.special);
    assert!(c.regex.is_none());
    assert_eq!(c.output_format, OutputFormat::Literal);
}

#[test]
fn config_from_args_takes_values() {
    let a = Args {
        window_min_size: Some(2),
        window_max_size: Some(9),
        special: Some(true),
        whitespace: Some(true),
        output_format: Some("Json".to_string()),
        length: Some(true),
        regex: Some("x".to_string()),
        output: None,
        input: Some("file".to_string()),
        line_include: Some(true),
        split: Some(5),
    };
    let c = StringerConfig::from_args(a);
    assert_eq!(c.window_min_size, 2);
    assert_eq!(c.window_max_size, 9);
    assert!(c.special && c.whitespace_include && c.length && c.line_include);
    assert_eq!(c.split, 5);
    assert_eq!(c.output_format, OutputFormat::JSON);
    assert_eq!(c.regex.as_ref().unwrap().as_str(), "x");
}

#[test]
fn config_from_args_drops_bad_pattern() {
    let mut a = Args::default();
    a.regex = Some("(".to_string());
    let c = StringerConfig::from_args(a);
    assert!(c.regex.is_none());
}

#[test]
fn error_carries_message() {
    assert_eq!(StringerError::new("boom".to_string()).message(), "boom");
    assert_eq!(StringerError::default().message(), "StringerError {}");
}

#[test]
fn parse_args_reads_matches() {
    let cmd = clap::Command::new("stringer")
        .arg(
            clap::Arg::new("min")
                .long("min")
                .value_parser(clap::builder::RangedU64ValueParser::<u64>::new()),
        )
        .arg(
            clap::Arg::new("special")
                .long("special")
                .value_parser(clap::builder::BoolValueParser::new()),
        )
        .arg(
            clap::Arg::new("in")
                .long("in")
                .value_parser(clap::builder::StringValueParser::new()),
        );
    let m = cmd.get_matches_from(vec!["stringer", "--min", "7", "--special", "true", "--in", "f.bin"]);
    let a = Args::parse_args(&m).unwrap();
    assert_eq!(a.window_min_size, Some(7));
    assert_eq!(a.special, Some(true));
    assert_eq!(a.input, Some("f.bin".to_string()));
    assert_eq!(a.window_max_size, None);
    assert_eq!(a.regex, None);
    assert_eq!(a.split, None);
}
