use vstd::prelude::*;
use crate::config::StringerConfig;
use crate::pattern::regex_is_match;

verus! {

/// What a result shows: its text and, when lengths are on, its length.
pub type ResultView = (Seq<char>, Option<u64>);

/// The first position at or after `p` whose byte is accepted, or the end of `buf`.
pub open spec fn skip_end(cfg: StringerConfig, buf: Seq<u8>, p: int) -> int
    decreases buf.len() - p,
{
    if p >= buf.len() {
        buf.len() as int
    } else if cfg.accepts(buf[p]) {
        p
    } else {
        skip_end(cfg, buf, p + 1)
    }
}

/// The position past which a run that starts at `start` may not grow: the end of the
/// buffer, `split` bytes on when splitting, and the maximum window when it caps.
pub open spec fn run_limit(cfg: StringerConfig, len: int, start: int) -> int {
    let a = if cfg.split > 0 && start + cfg.split < len {
        start + cfg.split
    } else {
        len
    };
    if cfg.max_caps() && start + cfg.window_max_size < a {
        start + cfg.window_max_size
    } else {
        a
    }
}

/// The first position at or after `p` whose byte is rejected, or `limit`.
pub open spec fn run_end(cfg: StringerConfig, buf: Seq<u8>, p: int, limit: int) -> int
    decreases limit - p,
{
    if p >= limit || !cfg.accepts(buf[p]) {
        p
    } else {
        run_end(cfg, buf, p + 1, limit)
    }
}

/// Where the cursor stands after one extraction step from `p`.
pub open spec fn next_pos(cfg: StringerConfig, buf: Seq<u8>, p: int) -> int {
    let s = skip_end(cfg, buf, p);
    if s >= buf.len() {
        buf.len() as int
    } else {
        run_end(cfg, buf, s, run_limit(cfg, buf.len() as int, s))
    }
}

/// The run that one extraction step from `p` yields, if it is long enough.
pub open spec fn next_run(cfg: StringerConfig, buf: Seq<u8>, p: int) -> Option<Seq<u8>> {
    let s = skip_end(cfg, buf, p);
    if s >= buf.len() {
        None
    } else {
        let e = run_end(cfg, buf, s, run_limit(cfg, buf.len() as int, s));
        if e - s >= cfg.window_min_size {
            Some(buf.subrange(s, e))
        } else {
            None
        }
    }
}

/// All runs that extraction from `p` to the end of `buf` yields, in order.
pub open spec fn scan_runs(cfg: StringerConfig, buf: Seq<u8>, p: int) -> Seq<Seq<u8>>
    decreases buf.len() - p,
{
    if p < 0 || p >= buf.len() {
        seq![]
    } else {
        let q = next_pos(cfg, buf, p);
        if q <= p || q > buf.len() {
            seq![]
        } else {
            let head = match next_run(cfg, buf, p) {
                Some(v) => seq![v],
                None => seq![],
            };
            head + scan_runs(cfg, buf, q)
        }
    }
}

/// The characters of an ASCII byte string.
pub open spec fn chars_of(v: Seq<u8>) -> Seq<char> {
    v.map_values(|b: u8| b as char)
}

/// The result a run becomes under `cfg`.
pub open spec fn result_of(cfg: StringerConfig, v: Seq<u8>) -> ResultView {
    (chars_of(v), if cfg.length {
        Some(v.len() as u64)
    } else {
        None
    })
}

/// The results a sequence of runs becomes under `cfg`.
pub open spec fn results_of(cfg: StringerConfig, runs: Seq<Seq<u8>>) -> Seq<ResultView> {
    runs.map_values(|v: Seq<u8>| result_of(cfg, v))
}

/// The results that `pattern` keeps, in their order; all of them when there is none.
pub open spec fn filter_results(pattern: Option<Seq<char>>, rs: Seq<ResultView>) -> Seq<ResultView> {
    match pattern {
        Some(p) => rs.filter(|r: ResultView| regex_is_match(p, r.0)),
        None => rs,
    }
}

/// The results of extracting strings from the whole of `buf` under `cfg`.
pub open spec fn extract(cfg: StringerConfig, buf: Seq<u8>) -> Seq<ResultView> {
    filter_results(cfg.pattern(), results_of(cfg, scan_runs(cfg, buf, 0)))
}

/// The elements of `s` whose mark is set, in their order.
pub open spec fn select<A>(s: Seq<A>, marks: Seq<bool>) -> Seq<A>
    decreases s.len(),
{
    if s.len() == 0 {
        s
    } else {
        let init = select(s.drop_last(), marks);
        if marks[s.len() - 1] {
            init.push(s.last())
        } else {
            init
        }
    }
}

pub(crate) proof fn lemma_skip_end(cfg: StringerConfig, buf: Seq<u8>, p: int)
    requires
        0 <= p,
    ensures
        p <= skip_end(cfg, buf, p) || p > buf.len(),
        skip_end(cfg, buf, p) <= buf.len(),
        skip_end(cfg, buf, p) < buf.len() ==> cfg.accepts(buf[skip_end(cfg, buf, p)]),
        forall|i: int| p <= i < skip_end(cfg, buf, p) ==> !cfg.accepts(#[trigger] buf[i]),
    decreases buf.len() - p,
{
    if p < buf.len() && !cfg.accepts(buf[p]) {
        lemma_skip_end(cfg, buf, p + 1);
    }
}

pub(crate) proof fn lemma_run_end(cfg: StringerConfig, buf: Seq<u8>, p: int, limit: int)
    requires
        0 <= p <= limit <= buf.len(),
    ensures
        p <= run_end(cfg, buf, p, limit) <= limit,
        forall|i: int| p <= i < run_end(cfg, buf, p, limit) ==> cfg.accepts(#[trigger] buf[i]),
    decreases limit - p,
{
    if p < limit && cfg.accepts(buf[p]) {
        lemma_run_end(cfg, buf, p + 1, limit);
    }
}

/// A step from a position inside the buffer moves the cursor forward, and what it
/// yields lies between the skipped bytes and the new cursor.
pub(crate) proof fn lemma_step(cfg: StringerConfig, buf: Seq<u8>, p: int)
    requires
        0 <= p < buf.len(),
    ensures
        p < next_pos(cfg, buf, p) <= buf.len(),
        next_run(cfg, buf, p) matches Some(v) ==> {
            &&& v.len() >= cfg.window_min_size
            &&& (cfg.split > 0 ==> v.len() <= cfg.split)
            &&& (cfg.max_caps() ==> v.len() <= cfg.window_max_size)
            &&& forall|i: int| 0 <= i < v.len() ==> cfg.accepts(#[trigger] v[i])
        },
{
    lemma_skip_end(cfg, buf, p);
    let s = skip_end(cfg, buf, p);
    if s < buf.len() {
        let lim = run_limit(cfg, buf.len() as int, s);
        lemma_run_end(cfg, buf, s, lim);
        lemma_run_end(cfg, buf, s + 1, lim);
        let e = run_end(cfg, buf, s, lim);
        if e - s >= cfg.window_min_size {
            let v = buf.subrange(s, e);
            assert forall|i: int| 0 <= i < v.len() implies cfg.accepts(#[trigger] v[i]) by {
                assert(v[i] == buf[s + i]);
            }
        }
    }
}

/// Selecting by marks that record whether the pattern matches is filtering by it.
pub(crate) proof fn lemma_select_filter(rs: Seq<ResultView>, marks: Seq<bool>, p: Seq<char>)
    requires
        marks.len() == rs.len(),
        forall|j: int| 0 <= j < rs.len() ==> #[trigger] marks[j] == regex_is_match(p, rs[j].0),
    ensures
        select(rs, marks) == rs.filter(|r: ResultView| regex_is_match(p, r.0)),
    decreases rs.len(),
{
    reveal(Seq::filter);
    if rs.len() > 0 {
        lemma_select_filter(rs.drop_last(), marks.take(rs.len() - 1), p);
        lemma_select_marks(rs.drop_last(), marks, marks.take(rs.len() - 1));
    }
}

/// Selection reads only the marks of the positions it covers.
pub(crate) proof fn lemma_select_marks<A>(s: Seq<A>, m1: Seq<bool>, m2: Seq<bool>)
    requires
        s.len() <= m1.len(),
        s.len() <= m2.len(),
        forall|j: int| 0 <= j < s.len() ==> m1[j] == m2[j],
    ensures
        select(s, m1) == select(s, m2),
    decreases s.len(),
{
    if s.len() > 0 {
        lemma_select_marks(s.drop_last(), m1, m2);
    }
}

/// Filtering keeps only elements of the sequence, so what holds of every element
/// holds of every element that is kept.
pub proof fn lemma_filter_forall<A>(s: Seq<A>, pred: spec_fn(A) -> bool, q: spec_fn(A) -> bool)
    requires
        forall|i: int| 0 <= i < s.len() ==> q(#[trigger] s[i]),
    ensures
        forall|i: int| 0 <= i < s.filter(pred).len() ==> q(#[trigger] s.filter(pred)[i]),
    decreases s.len(),
{
    reveal(Seq::filter);
    if s.len() > 0 {
        let init = s.drop_last();
        assert forall|i: int| 0 <= i < init.len() implies q(#[trigger] init[i]) by {
            assert(init[i] == s[i]);
        }
        lemma_filter_forall(init, pred, q);
        let f = init.filter(pred);
        let out = s.filter(pred);
        assert forall|i: int| 0 <= i < out.len() implies q(#[trigger] out[i]) by {
            if i < f.len() {
                assert(out[i] == f[i]);
            } else {
                assert(out[i] == s[s.len() - 1]);
            }
        }
    }
}

/// Past a stretch of rejected bytes that reaches the end, nothing is left to skip to.
proof fn lemma_skip_to_end(cfg: StringerConfig, buf: Seq<u8>, p: int)
    requires
        0 <= p <= buf.len(),
        forall|i: int| p <= i < buf.len() ==> !cfg.accepts(#[trigger] buf[i]),
    ensures
        skip_end(cfg, buf, p) == buf.len(),
{
    lemma_skip_end(cfg, buf, p);
}

/// A stretch of accepted bytes runs on to the limit.
proof fn lemma_run_to_limit(cfg: StringerConfig, buf: Seq<u8>, p: int, limit: int)
    requires
        0 <= p <= limit <= buf.len(),
        forall|i: int| p <= i < limit ==> cfg.accepts(#[trigger] buf[i]),
    ensures
        run_end(cfg, buf, p, limit) == limit,
    decreases limit - p,
{
    if p < limit {
        lemma_run_to_limit(cfg, buf, p + 1, limit);
    }
}

/// When no byte of the input is accepted, extraction yields no result.
pub proof fn lemma_nothing_accepted(cfg: StringerConfig, buf: Seq<u8>)
    requires
        forall|i: int| 0 <= i < buf.len() ==> !cfg.accepts(#[trigger] buf[i]),
    ensures
        extract(cfg, buf) == Seq::<ResultView>::empty(),
{
    reveal(Seq::filter);
    if buf.len() > 0 {
        lemma_skip_to_end(cfg, buf, 0);
        assert(scan_runs(cfg, buf, buf.len() as int) == Seq::<Seq<u8>>::empty());
        assert(scan_runs(cfg, buf, 0) =~= Seq::<Seq<u8>>::empty());
    }
    assert(results_of(cfg, scan_runs(cfg, buf, 0)) =~= Seq::<ResultView>::empty());
}

/// Whether a run of `n` bytes is as long as the window asks: at least the minimum and,
/// when a maximum is set, at most the larger of the maximum and the split size.
pub open spec fn within_window(cfg: StringerConfig, n: int) -> bool {
    &&& n >= cfg.window_min_size
    &&& (cfg.window_max_size > 0 ==> n <= if cfg.window_max_size >= cfg.split {
        cfg.window_max_size as int
    } else {
        cfg.split as int
    })
}

proof fn lemma_runs_within_window(cfg: StringerConfig, buf: Seq<u8>, p: int)
    requires
        0 <= p,
        cfg.window_max_size == 0 || cfg.window_max_size >= cfg.window_min_size || cfg.split > 0,
    ensures
        forall|i: int|
            0 <= i < scan_runs(cfg, buf, p).len() ==> within_window(
                cfg,
                #[trigger] scan_runs(cfg, buf, p)[i].len() as int,
            ),
    decreases buf.len() - p,
{
    if p < buf.len() {
        lemma_step(cfg, buf, p);
        let q = next_pos(cfg, buf, p);
        lemma_runs_within_window(cfg, buf, q);
        let rest = scan_runs(cfg, buf, q);
        match next_run(cfg, buf, p) {
            Some(v) => {
                assert(scan_runs(cfg, buf, p) == seq![v] + rest);
                assert forall|i: int| 0 <= i < scan_runs(cfg, buf, p).len() implies within_window(
                    cfg,
                    #[trigger] scan_runs(cfg, buf, p)[i].len() as int,
                ) by {
                    if i > 0 {
                        assert(scan_runs(cfg, buf, p)[i] == rest[i - 1]);
                    }
                }
            },
            None => {
                assert(scan_runs(cfg, buf, p) =~= rest);
            },
        }
    }
}

/// Every result is at least the minimum window long and, when a maximum window is set,
/// at most the larger of the maximum and the split size. Where the maximum lies below
/// the minimum it does not cap runs, so without splitting nothing bounds them from above.
pub proof fn lemma_result_lengths(cfg: StringerConfig, buf: Seq<u8>)
    requires
        cfg.window_max_size == 0 || cfg.window_max_size >= cfg.window_min_size || cfg.split > 0,
    ensures
        forall|i: int|
            0 <= i < extract(cfg, buf).len() ==> within_window(
                cfg,
                #[trigger] extract(cfg, buf)[i].0.len() as int,
            ),
{
    let runs = scan_runs(cfg, buf, 0);
    let rs = results_of(cfg, runs);
    lemma_runs_within_window(cfg, buf, 0);
    let q = |r: ResultView| within_window(cfg, r.0.len() as int);
    assert forall|i: int| 0 <= i < rs.len() implies q(#[trigger] rs[i]) by {
        assert(rs[i].0 == chars_of(runs[i]));
        assert(chars_of(runs[i]).len() == runs[i].len());
    }
    match cfg.pattern() {
        Some(p) => {
            lemma_filter_forall(rs, |r: ResultView| regex_is_match(p, r.0), q);
        },
        None => {},
    }
}

/// Filtering by the pattern a second time changes nothing.
pub proof fn lemma_filter_idempotent(pattern: Option<Seq<char>>, rs: Seq<ResultView>)
    ensures
        filter_results(pattern, filter_results(pattern, rs)) == filter_results(pattern, rs),
    decreases rs.len(),
{
    reveal(Seq::filter);
    match pattern {
        Some(p) => {
            if rs.len() > 0 {
                let pred = |r: ResultView| regex_is_match(p, r.0);
                lemma_filter_idempotent(pattern, rs.drop_last());
                let f = rs.drop_last().filter(pred);
                if pred(rs.last()) {
                    assert(f.push(rs.last()).drop_last() =~= f);
                }
            }
        },
        None => {},
    }
}

/// A buffer of accepted bytes, at least the minimum window long, is one run when runs
/// are neither split nor capped.
pub proof fn lemma_single_run(cfg: StringerConfig, buf: Seq<u8>)
    requires
        cfg.split == 0,
        !cfg.max_caps(),
        buf.len() > 0,
        buf.len() >= cfg.window_min_size,
        forall|i: int| 0 <= i < buf.len() ==> cfg.accepts(#[trigger] buf[i]),
    ensures
        scan_runs(cfg, buf, 0) == seq![buf],
{
    let n = buf.len() as int;
    assert(run_limit(cfg, n, 0) == n);
    lemma_run_to_limit(cfg, buf, 0, n);
    assert(buf.subrange(0, n) =~= buf);
    assert(scan_runs(cfg, buf, n) == Seq::<Seq<u8>>::empty());
    assert(scan_runs(cfg, buf, 0) =~= seq![buf]);
}

/// Runs are not cut where two buffers meet: when runs are neither split nor capped and
/// `a` and `b` hold only accepted bytes, each at least the minimum window long, each
/// alone yields itself as one run, while the two joined yield a single run, not two.
pub proof fn lemma_runs_merge_at_seam(cfg: StringerConfig, a: Seq<u8>, b: Seq<u8>)
    requires
        cfg.split == 0,
        !cfg.max_caps(),
        a.len() > 0,
        b.len() > 0,
        a.len() >= cfg.window_min_size,
        b.len() >= cfg.window_min_size,
        forall|i: int| 0 <= i < a.len() ==> cfg.accepts(#[trigger] a[i]),
        forall|i: int| 0 <= i < b.len() ==> cfg.accepts(#[trigger] b[i]),
    ensures
        scan_runs(cfg, a, 0) == seq![a],
        scan_runs(cfg, b, 0) == seq![b],
        scan_runs(cfg, a + b, 0) == seq![a + b],
        scan_runs(cfg, a + b, 0) != scan_runs(cfg, a, 0) + scan_runs(cfg, b, 0),
{
    lemma_single_run(cfg, a);
    lemma_single_run(cfg, b);
    let ab = a + b;
    assert forall|i: int| 0 <= i < ab.len() implies cfg.accepts(#[trigger] ab[i]) by {
        if i < a.len() {
            assert(ab[i] == a[i]);
        } else {
            assert(ab[i] == b[i - a.len()]);
        }
    }
    lemma_single_run(cfg, ab);
    assert((seq![a] + seq![b]).len() == 2);
}

} // verus!
