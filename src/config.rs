use vstd::prelude::*;
use crate::args::Args;
use crate::error::StringerError;
use crate::pattern::{regex_compiles, Pattern};

verus! {

/// Output formats that are supported.
#[derive(Clone, Copy, Debug, PartialEq, Eq, Structural)]
pub enum OutputFormat {
    JSON,
    XML,
    Literal,
}

/// Default minimum window size.
pub const WINDOW_MIN_SIZE: u64 = 4;

/// Default maximum window size (unbounded).
pub const WINDOW_MAX_SIZE: u64 = 0;

/// By default punctuation does not belong to a string.
pub const SPECIAL_INCLUDE: bool = false;

/// By default space, tab and vertical tab do not belong to a string.
pub const WHITESPACE_INCLUDE: bool = false;

/// Default output format.
pub const OUTPUTFORMAT: OutputFormat = OutputFormat::Literal;

/// By default the length is not attached to a result.
pub const LENGTH: bool = false;

/// By default line feed and carriage return do not belong to a string.
pub const LINE_INCLUDE: bool = false;

/// By default runs are not split.
pub const SPLIT: u64 = 0;

/// The policy that drives an extraction.
pub struct StringerConfig {
    /// Minimum length of an accepted run.
    pub window_min_size: u64,
    /// Maximum length of an accepted run; 0 means unbounded.
    pub window_max_size: u64,
    /// Whether ASCII punctuation belongs to a run.
    pub special: bool,
    /// Whether space, tab and vertical tab belong to a run.
    pub whitespace_include: bool,
    /// How results are rendered.
    pub output_format: OutputFormat,
    /// Whether each result carries its length.
    pub length: bool,
    /// Largest piece a run is cut into; 0 means no splitting.
    pub split: u64,
    /// Results are kept only when this pattern matches them.
    pub regex: Option<Pattern>,
    /// Whether line feed and carriage return belong to a run.
    pub line_include: bool,
}

/// ASCII letter or digit.
pub open spec fn is_alnum(b: u8) -> bool {
    (0x30 <= b <= 0x39) || (0x41 <= b <= 0x5a) || (0x61 <= b <= 0x7a)
}

/// ASCII punctuation: the graphic characters that are neither letters nor digits.
pub open spec fn is_punct(b: u8) -> bool {
    (0x21 <= b <= 0x2f) || (0x3a <= b <= 0x40) || (0x5b <= b <= 0x60) || (0x7b <= b <= 0x7e)
}

/// Space, tab or vertical tab.
pub open spec fn is_blank(b: u8) -> bool {
    b == 0x20 || b == 0x09 || b == 0x0b
}

/// Line feed or carriage return.
pub open spec fn is_line_break(b: u8) -> bool {
    b == 0x0a || b == 0x0d
}

/// The `Some` of `v` when it holds, else `default`.
pub open spec fn or_default<T>(v: Option<T>, default: T) -> T {
    match v {
        Some(x) => x,
        None => default,
    }
}

/// The format a lower-cased format name selects; unknown names select `Literal`.
pub open spec fn format_of_lower(name: Seq<char>) -> OutputFormat {
    if name == "json"@ {
        OutputFormat::JSON
    } else if name == "xml"@ {
        OutputFormat::XML
    } else {
        OutputFormat::Literal
    }
}

/// The lower-case form of a string, as `str::to_lowercase` gives it.
pub uninterp spec fn lower_of(s: Seq<char>) -> Seq<char>;

/// Relies on `str::to_lowercase`: the result depends on the characters alone.
#[verifier::external_body]
fn lowercase(s: &str) -> (r: String)
    ensures
        r@ == lower_of(s@),
{
    s.to_lowercase()
}

/// Selects the output format named by an already lower-cased name.
pub fn format_from_lower(name: &str) -> (r: OutputFormat)
    ensures
        r == format_of_lower(name@),
{
    let n = name.to_owned();
    if n == "json".to_owned() {
        OutputFormat::JSON
    } else if n == "xml".to_owned() {
        OutputFormat::XML
    } else {
        OutputFormat::Literal
    }
}

/// Selects the output format named by `name`, ignoring case.
pub fn format_from_name(name: &str) -> (r: OutputFormat)
    ensures
        r == format_of_lower(lower_of(name@)),
{
    let lowered = lowercase(name);
    format_from_lower(lowered.as_str())
}

impl StringerConfig {
    /// Whether byte `b` may belong to a run: letters and digits always, punctuation,
    /// blanks and line breaks each when their switch is on.
    pub open spec fn accepts(&self, b: u8) -> bool {
        is_alnum(b) || (self.special && is_punct(b)) || (self.whitespace_include && is_blank(b))
            || (self.line_include && is_line_break(b))
    }

    /// Whether the maximum window caps accumulation: it is set and not below the minimum.
    pub open spec fn max_caps(&self) -> bool {
        self.window_max_size != 0 && self.window_max_size >= self.window_min_size
    }

    /// The pattern text results are filtered by, if any.
    pub open spec fn pattern(&self) -> Option<Seq<char>> {
        match self.regex {
            Some(p) => Some(p@),
            None => None,
        }
    }

    /// The default policy.
    pub open spec fn is_default(&self) -> bool {
        &&& self.window_min_size == WINDOW_MIN_SIZE
        &&& self.window_max_size == WINDOW_MAX_SIZE
        &&& self.special == SPECIAL_INCLUDE
        &&& self.whitespace_include == WHITESPACE_INCLUDE
        &&& self.output_format == OUTPUTFORMAT
        &&& self.length == LENGTH
        &&& self.regex.is_none()
        &&& self.line_include == LINE_INCLUDE
        &&& self.split == SPLIT
    }

    /// Whether byte `b` may belong to a run under this policy.
    pub fn accepts_byte(&self, b: u8) -> (r: bool)
        ensures
            r == self.accepts(b),
    {
        if (0x30 <= b && b <= 0x39) || (0x41 <= b && b <= 0x5a) || (0x61 <= b && b <= 0x7a) {
            return true;
        }
        if self.special && ((0x21 <= b && b <= 0x2f) || (0x3a <= b && b <= 0x40) || (0x5b <= b
            && b <= 0x60) || (0x7b <= b && b <= 0x7e)) {
            return true;
        }
        if self.whitespace_include && (b == 0x20 || b == 0x09 || b == 0x0b) {
            return true;
        }
        if self.line_include && (b == 0x0a || b == 0x0d) {
            return true;
        }
        false
    }

    /// A configuration with the default policy.
    pub fn new() -> (r: Self)
        ensures
            r.is_default(),
    {
        StringerConfig::default()
    }

    /// Sets whether punctuation belongs to a run.
    pub fn special_include(&mut self, opt: bool)
        ensures
            *final(self) == (StringerConfig { special: opt, ..*old(self) }),
    {
        self.special = opt;
    }

    /// Sets the minimum window size.
    pub fn set_window_min_size(&mut self, ws: u64)
        ensures
            *final(self) == (StringerConfig { window_min_size: ws, ..*old(self) }),
    {
        self.window_min_size = ws;
    }

    /// Sets the maximum window size; 0 means unbounded.
    pub fn set_window_max_size(&mut self, ws: u64)
        ensures
            *final(self) == (StringerConfig { window_max_size: ws, ..*old(self) }),
    {
        self.window_max_size = ws;
    }

    /// Sets whether space, tab and vertical tab belong to a run.
    pub fn whitespace_include(&mut self, opt: bool)
        ensures
            *final(self) == (StringerConfig { whitespace_include: opt, ..*old(self) }),
    {
        self.whitespace_include = opt;
    }

    /// Sets the output format.
    pub fn set_output_format(&mut self, opt: OutputFormat)
        ensures
            *final(self) == (StringerConfig { output_format: opt, ..*old(self) }),
    {
        self.output_format = opt;
    }

    /// Sets whether each result carries its length.
    pub fn length_include(&mut self, opt: bool)
        ensures
            *final(self) == (StringerConfig { length: opt, ..*old(self) }),
    {
        self.length = opt;
    }

    /// Sets whether line feed and carriage return belong to a run.
    pub fn line_include(&mut self, opt: bool)
        ensures
            *final(self) == (StringerConfig { line_include: opt, ..*old(self) }),
    {
        self.line_include = opt;
    }

    /// Sets the split size; 0 means no splitting.
    pub fn split(&mut self, opt: u64)
        ensures
            *final(self) == (StringerConfig { split: opt, ..*old(self) }),
    {
        self.split = opt;
    }

    /// Compiles `opt` and filters results by it. When the pattern does not compile,
    /// the configuration is left as it was and an error is returned.
    pub fn regex(&mut self, opt: String) -> (r: Result<(), StringerError>)
        ensures
            r.is_ok() == regex_compiles(opt@),
            r.is_ok() ==> final(self).pattern() == Some(opt@) && *final(self) == (StringerConfig {
                regex: final(self).regex,
                ..*old(self)
            }),
            r.is_err() ==> *final(self) == *old(self) && r->Err_0@ == "unable to compile provided regex"@,
    {
        match Pattern::new(opt) {
            Some(p) => {
                self.regex = Some(p);
                Ok(())
            },
            None => Err(StringerError::new("unable to compile provided regex".to_owned())),
        }
    }

    /// Builds a configuration from command-line arguments; each absent argument takes
    /// its default. A pattern that does not compile leaves the configuration without one.
    pub fn from_args(value: Args) -> (r: Self)
        ensures
            r.window_min_size == or_default(value.window_min_size, WINDOW_MIN_SIZE),
            r.window_max_size == or_default(value.window_max_size, WINDOW_MAX_SIZE),
            r.special == or_default(value.special, SPECIAL_INCLUDE),
            r.whitespace_include == or_default(value.whitespace, WHITESPACE_INCLUDE),
            r.length == or_default(value.length, LENGTH),
            r.line_include == or_default(value.line_include, LINE_INCLUDE),
            r.split == or_default(value.split, SPLIT),
            r.output_format == match value.output_format {
                Some(f) => format_of_lower(lower_of(f@)),
                None => OUTPUTFORMAT,
            },
            r.pattern() == match value.regex {
                Some(p) => if regex_compiles(p@) {
                    Some(p@)
                } else {
                    None
                },
                None => None,
            },
    {
        let mut conf = StringerConfig::default();
        conf.set_window_min_size(
            match value.window_min_size {
                Some(s) => s,
                None => WINDOW_MIN_SIZE,
            },
        );
        conf.set_window_max_size(
            match value.window_max_size {
                Some(s) => s,
                None => WINDOW_MAX_SIZE,
            },
        );
        conf.special_include(
            match value.special {
                Some(s) => s,
                None => SPECIAL_INCLUDE,
            },
        );
        conf.whitespace_include(
            match value.whitespace {
                Some(w) => w,
                None => WHITESPACE_INCLUDE,
            },
        );
        conf.length_include(
            match value.length {
                Some(l) => l,
                None => LENGTH,
            },
        );
        conf.line_include(
            match value.line_include {
                Some(l) => l,
                None => LINE_INCLUDE,
            },
        );
        conf.split(
            match value.split {
                Some(s) => s,
                None => SPLIT,
            },
        );
        conf.output_format =
        match value.output_format {
            Some(f) => format_from_name(f.as_str()),
            None => OUTPUTFORMAT,
        };
        conf.regex =
        match value.regex {
            Some(r) => Pattern::new(r),
            None => None,
        };
        conf
    }
}

impl Default for StringerConfig {
    /// The default policy: runs of at least four letters and digits, unbounded and
    /// unsplit, without lengths or a pattern.
    fn default() -> (r: Self)
        ensures
            r.is_default(),
    {
        StringerConfig {
            window_min_size: WINDOW_MIN_SIZE,
            window_max_size: WINDOW_MAX_SIZE,
            special: SPECIAL_INCLUDE,
            whitespace_include: WHITESPACE_INCLUDE,
            output_format: OUTPUTFORMAT,
            length: LENGTH,
            regex: None,
            line_include: LINE_INCLUDE,
            split: SPLIT,
        }
    }
}

} // verus!
