pub mod args;
pub mod config;
pub mod error;
pub mod pattern;
pub mod scan;

use vstd::prelude::*;
use crate::config::StringerConfig;
use crate::scan::{
    chars_of, filter_results, next_pos, next_run, result_of, results_of, run_limit, scan_runs,
    select, skip_end, run_end, lemma_step, ResultView,
};

verus! {

/// Relies on `String::from_utf8`: an ASCII byte string is valid UTF-8, and each of its
/// bytes becomes the character with the same code.
#[verifier::external_body]
fn ascii_string(v: Vec<u8>) -> (r: String)
    requires
        forall|i: int| 0 <= i < v@.len() ==> v@[i] < 128,
    ensures
        r@ == chars_of(v@),
{
    match String::from_utf8(v) {
        Ok(s) => s,
        Err(_) => String::new(),
    }
}

/// One extracted string, with its length when the configuration asks for it.
#[derive(Debug)]
pub struct StringerResult {
    /// The extracted string.
    string: String,
    /// Its length in bytes, if requested.
    length: Option<u64>,
}

impl View for StringerResult {
    type V = ResultView;

    closed spec fn view(&self) -> ResultView {
        (self.string@, self.length)
    }
}

impl StringerResult {
    /// The extracted string.
    pub fn string(&self) -> (r: &str)
        ensures
            r@ == self@.0,
    {
        self.string.as_str()
    }

    /// Its length in bytes, if the configuration asked for it.
    pub fn length(&self) -> (r: Option<u64>)
        ensures
            r == self@.1,
    {
        self.length
    }
}

/// The views of a sequence of results.
pub open spec fn views(rs: Seq<StringerResult>) -> Seq<ResultView> {
    rs.map_values(|r: StringerResult| r@)
}

/// Keeps the results whose mark is set, in their order.
pub fn retain_marked(results: &mut Vec<StringerResult>, marks: &Vec<bool>)
    requires
        marks@.len() == old(results)@.len(),
    ensures
        views(final(results)@) == select(views(old(results)@), marks@),
{
    let ghost orig = views(results@);
    let n = results.len();
    let mut kept: Vec<StringerResult> = Vec::new();
    let mut i: usize = 0;
    while i < n
        invariant
            n == results@.len(),
            n == marks@.len(),
            i <= n,
            orig.len() == n,
            forall|j: int| i <= j < n ==> #[trigger] results@[j]@ == orig[j],
            views(kept@) == select(orig.take(i as int), marks@),
        decreases n - i,
    {
        let mut item = StringerResult { string: String::new(), length: None };
        results.set_and_swap(i, &mut item);
        let ghost before = views(kept@);
        if marks[i] {
            kept.push(item);
        }
        proof {
            assert(orig.take(i + 1).drop_last() =~= orig.take(i as int));
            assert(views(kept@) =~= select(orig.take(i + 1), marks@));
        }
        i = i + 1;
    }
    proof {
        assert(orig.take(n as int) =~= orig);
    }
    *results = kept;
}

/// Extracts runs of printable bytes from a buffer held in memory.
pub struct Stringer {
    /// The policy of the extraction.
    config: StringerConfig,
    /// The whole input.
    buffer: Vec<u8>,
    /// The cursor: the first byte not yet consumed.
    pos: usize,
    /// The results, in the order of the input.
    pub results: Vec<StringerResult>,
}

impl Stringer {
    /// The cursor never passes the end of the buffer.
    pub closed spec fn wf(&self) -> bool {
        self.pos <= self.buffer@.len()
    }

    /// The policy of the extraction.
    pub closed spec fn spec_config(&self) -> StringerConfig {
        self.config
    }

    /// The input.
    pub closed spec fn spec_buffer(&self) -> Seq<u8> {
        self.buffer@
    }

    /// The cursor.
    pub closed spec fn spec_pos(&self) -> int {
        self.pos as int
    }

    /// The results so far.
    pub closed spec fn spec_results(&self) -> Seq<StringerResult> {
        self.results@
    }

    /// Whether no byte is left to consume.
    pub open spec fn exhausted(&self) -> bool {
        self.spec_pos() >= self.spec_buffer().len()
    }

    /// An extractor over `buffer` with the default policy, its cursor on the first byte.
    pub fn new(buffer: Vec<u8>) -> (r: Self)
        ensures
            r.wf(),
            r.spec_config().is_default(),
            r.spec_buffer() == buffer@,
            r.spec_pos() == 0,
            r.spec_results().len() == 0,
    {
        Stringer { config: StringerConfig::default(), buffer, pos: 0, results: Vec::new() }
    }

    /// Replaces the policy.
    pub fn set_config(&mut self, config: StringerConfig)
        ensures
            final(self).spec_config() == config,
            final(self).spec_buffer() == old(self).spec_buffer(),
            final(self).spec_pos() == old(self).spec_pos(),
            final(self).spec_results() == old(self).spec_results(),
            final(self).wf() == old(self).wf(),
    {
        self.config = config;
    }

    /// Moves the cursor one byte on.
    fn advance(&mut self)
        requires
            old(self).pos < old(self).buffer.len(),
        ensures
            final(self).pos == old(self).pos + 1,
            final(self).buffer == old(self).buffer,
            final(self).config == old(self).config,
            final(self).results == old(self).results,
    {
        self.pos = self.pos + 1;
    }

    /// Whether the byte under the cursor may belong to a run.
    fn should_read(&self) -> (r: bool)
        requires
            self.pos < self.buffer@.len(),
        ensures
            r == self.config.accepts(self.buffer@[self.pos as int]),
    {
        self.config.accepts_byte(self.buffer[self.pos])
    }

    /// The position past which a run starting at `start` may not grow.
    fn limit_from(&self, start: usize) -> (r: usize)
        requires
            start < self.buffer@.len(),
        ensures
            r == run_limit(self.config, self.buffer@.len() as int, start as int),
    {
        let len = self.buffer.len();
        let room = (len - start) as u64;
        let mut limit = len;
        if self.config.split > 0 && self.config.split < room {
            limit = start + self.config.split as usize;
        }
        if self.config.window_max_size != 0 && self.config.window_max_size
            >= self.config.window_min_size && self.config.window_max_size < (limit - start) as u64 {
            limit = start + self.config.window_max_size as usize;
        }
        limit
    }

    /// Skips rejected bytes, then takes the run that follows, up to the split size and
    /// the maximum window. Returns it when it reaches the minimum window.
    fn read(&mut self) -> (r: Option<Vec<u8>>)
        requires
            old(self).wf(),
        ensures
            final(self).wf(),
            final(self).buffer == old(self).buffer,
            final(self).config == old(self).config,
            final(self).results == old(self).results,
            final(self).pos == next_pos(old(self).config, old(self).buffer@, old(self).pos as int),
            match r {
                Some(v) => next_run(old(self).config, old(self).buffer@, old(self).pos as int)
                    == Some(v@),
                None => next_run(old(self).config, old(self).buffer@, old(self).pos as int)
                    is None,
            },
    {
        let ghost cfg = self.config;
        let ghost buf = self.buffer@;
        let ghost p0 = self.pos as int;
        let len = self.buffer.len();
        while self.pos < len && !self.should_read()
            invariant
                self.buffer == old(self).buffer,
                self.buffer@ == buf,
                self.config == cfg,
                self.results == old(self).results,
                len == buf.len(),
                p0 <= self.pos <= len,
                skip_end(cfg, buf, p0) == skip_end(cfg, buf, self.pos as int),
            decreases len - self.pos,
        {
            self.advance();
        }
        if self.pos >= len {
            return None;
        }
        let start = self.pos;
        let limit = self.limit_from(start);
        proof {
            scan::lemma_run_end(cfg, buf, start as int, limit as int);
        }
        let mut buff: Vec<u8> = Vec::new();
        while self.pos < limit && self.should_read()
            invariant
                self.buffer == old(self).buffer,
                self.buffer@ == buf,
                self.config == cfg,
                self.results == old(self).results,
                len == buf.len(),
                start <= self.pos <= limit <= len,
                buff@ == buf.subrange(start as int, self.pos as int),
                run_end(cfg, buf, start as int, limit as int) == run_end(
                    cfg,
                    buf,
                    self.pos as int,
                    limit as int,
                ),
            decreases limit - self.pos,
        {
            buff.push(self.buffer[self.pos]);
            self.advance();
            proof {
                assert(buff@ =~= buf.subrange(start as int, self.pos as int));
            }
        }
        if (buff.len() as u64) < self.config.window_min_size {
            return None;
        }
        Some(buff)
    }

    /// Turns an accepted run into a result, with its length when lengths are on.
    fn to_stringer(&self, buff: Vec<u8>) -> (r: StringerResult)
        requires
            forall|i: int| 0 <= i < buff@.len() ==> self.config.accepts(#[trigger] buff@[i]),
        ensures
            r@ == result_of(self.config, buff@),
    {
        let len = buff.len() as u64;
        let string = ascii_string(buff);
        StringerResult {
            string,
            length: if self.config.length {
                Some(len)
            } else {
                None
            },
        }
    }

    /// Extracts every remaining run into `results`, then, when a pattern is set, keeps
    /// only the results that it matches.
    pub fn read_strings(&mut self)
        requires
            old(self).wf(),
        ensures
            final(self).wf(),
            final(self).exhausted(),
            final(self).spec_config() == old(self).spec_config(),
            final(self).spec_buffer() == old(self).spec_buffer(),
            views(final(self).spec_results()) == filter_results(
                old(self).spec_config().pattern(),
                views(old(self).spec_results()) + results_of(
                    old(self).spec_config(),
                    scan_runs(old(self).spec_config(), old(self).spec_buffer(), old(self).spec_pos()),
                ),
            ),
    {
        let ghost cfg = self.config;
        let ghost buf = self.buffer@;
        let ghost p0 = self.pos as int;
        let ghost start_views = views(self.results@);
        let ghost mut done: Seq<Seq<u8>> = seq![];
        while self.pos < self.buffer.len()
            invariant
                self.wf(),
                self.buffer@ == buf,
                self.config == cfg,
                p0 <= self.pos,
                scan_runs(cfg, buf, p0) == done + scan_runs(cfg, buf, self.pos as int),
                views(self.results@) == start_views + results_of(cfg, done),
            decreases self.buffer@.len() - self.pos,
        {
            let ghost p = self.pos as int;
            proof {
                lemma_step(cfg, buf, p);
            }
            let run = self.read();
            let ghost q = self.pos as int;
            match run {
                Some(v) => {
                    let ghost vv = v@;
                    let r = self.to_stringer(v);
                    let ghost before = self.results@;
                    self.results.push(r);
                    proof {
                        assert(views(self.results@) =~= views(before).push(result_of(cfg, vv)));
                        assert(scan_runs(cfg, buf, p) == seq![vv] + scan_runs(cfg, buf, q));
                        assert(done + scan_runs(cfg, buf, p) =~= done.push(vv) + scan_runs(
                            cfg,
                            buf,
                            q,
                        ));
                        assert(results_of(cfg, done.push(vv)) =~= results_of(cfg, done).push(
                            result_of(cfg, vv),
                        ));
                        assert(views(self.results@) =~= start_views + results_of(
                            cfg,
                            done.push(vv),
                        ));
                        done = done.push(vv);
                    }
                },
                None => {
                    proof {
                        assert(scan_runs(cfg, buf, p) =~= scan_runs(cfg, buf, q));
                    }
                },
            }
        }
        proof {
            assert(done + scan_runs(cfg, buf, self.pos as int) =~= done);
        }
        match &self.config.regex {
            Some(pat) => {
                let ghost all = views(self.results@);
                let mut marks: Vec<bool> = Vec::new();
                let mut i: usize = 0;
                while i < self.results.len()
                    invariant
                        i <= self.results@.len(),
                        views(self.results@) == all,
                        marks@.len() == i,
                        forall|j: int|
                            0 <= j < i ==> #[trigger] marks@[j] == crate::pattern::regex_is_match(
                                pat@,
                                all[j].0,
                            ),
                    decreases self.results@.len() - i,
                {
                    let m = pat.is_match(self.results[i].string.as_str());
                    marks.push(m);
                    i = i + 1;
                }
                retain_marked(&mut self.results, &marks);
                proof {
                    scan::lemma_select_filter(all, marks@, pat@);
                }
            },
            None => {},
        }
    }
}

} // verus!
