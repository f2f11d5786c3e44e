use vstd::prelude::*;
use crate::error::StringerError;

verus! {

#[verifier::external_type_specification]
#[verifier::external_body]
pub struct ExArgMatches(clap::ArgMatches);

/// Relies on `clap::ArgMatches::try_get_one`, which does not panic: the first value
/// parsed for `id`, if there is one. An id that the command does not define, or a value
/// of another type, gives none here.
#[verifier::external_body]
fn matched<T: Clone + Send + Sync + 'static>(matches: &clap::ArgMatches, id: &str) -> Option<T> {
    match matches.try_get_one::<T>(id) {
        Ok(v) => v.cloned(),
        Err(_) => None,
    }
}

/// Command-line arguments of the extractor; an absent one takes its default.
#[derive(Default)]
pub struct Args {
    /// Minimum window size.
    pub window_min_size: Option<u64>,
    /// Maximum window size.
    pub window_max_size: Option<u64>,
    /// Whether punctuation belongs to a run.
    pub special: Option<bool>,
    /// Whether space, tab and vertical tab belong to a run.
    pub whitespace: Option<bool>,
    /// Name of the output format.
    pub output_format: Option<String>,
    /// Whether each result carries its length.
    pub length: Option<bool>,
    /// Pattern results must match.
    pub regex: Option<String>,
    /// Output file.
    pub output: Option<String>,
    /// Input file.
    pub input: Option<String>,
    /// Whether line feed and carriage return belong to a run.
    pub line_include: Option<bool>,
    /// Split size.
    pub split: Option<u64>,
}

impl Args {
    /// Collects the arguments out of what the command line parser matched: `min`, `max`,
    /// `special`, `whitespace`, `format`, `length`, `out`, `in`, `regex`, `line` and
    /// `split`. Collecting them does not fail.
    pub fn parse_args(matches: &clap::ArgMatches) -> (r: Result<Args, StringerError>)
        ensures
            r.is_ok(),
    {
        Ok(
            Args {
                window_min_size: matched::<u64>(matches, "min"),
                window_max_size: matched::<u64>(matches, "max"),
                special: matched::<bool>(matches, "special"),
                whitespace: matched::<bool>(matches, "whitespace"),
                output_format: matched::<String>(matches, "format"),
                length: matched::<bool>(matches, "length"),
                regex: matched::<String>(matches, "regex"),
                output: matched::<String>(matches, "out"),
                input: matched::<String>(matches, "in"),
                line_include: matched::<bool>(matches, "line"),
                split: matched::<u64>(matches, "split"),
            },
        )
    }
}

} // verus!
