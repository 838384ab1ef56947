use vstd::prelude::*;

use crate::component::Constraints;
use crate::error::CgStatsError;
use crate::render::{min_width, min_width_of};
use crate::text::name_lt;
use crate::usage::{lemma_rows_map_at, rows_map, rows_sorted, Snapshot, UsageTable};

verus! {

/// Elapsed seconds as they are shown: below three minutes to the second,
/// from there on to the nearest minute, halves rounded up.
pub open spec fn shown_secs(secs: nat) -> nat {
    if secs < 180 {
        secs
    } else {
        ((secs + 30) / 60 * 60) as nat
    }
}

/// Rounds an elapsed number of seconds for display (see `shown_secs`).
pub fn round_elapsed_secs(secs: u64) -> (r: u64)
    ensures
        r as nat == shown_secs(secs as nat),
{
    if secs < 180 {
        secs
    } else {
        let q: u64 = secs / 60;
        let rem: u64 = secs % 60;
        if rem >= 30 {
            (q + 1) * 60
        } else {
            q * 60
        }
    }
}

/// The least load a cgroup must have to be listed, as the fraction
/// `num / den` of one CPU.
#[derive(Clone, Copy)]
pub struct Threshold {
    pub num: i32,
    pub den: u32,
}

impl Threshold {
    pub open spec fn wf(&self) -> bool {
        self.den > 0
    }

    /// The threshold `num / den`; none where `den` is zero.
    pub fn new(num: i32, den: u32) -> (r: Option<Threshold>)
        ensures
            den == 0 <==> r is None,
            r matches Some(t) ==> t.num == num && t.den == den && t.wf(),
    {
        if den == 0 {
            None
        } else {
            Some(Threshold { num, den })
        }
    }
}

/// Whether the load `delta / span` is at least the threshold (`span > 0`).
pub open spec fn meets(delta: int, span: int, t: Threshold) -> bool {
    delta * t.den >= t.num * span
}

/// One listed cgroup: its name and its load, the fraction
/// `delta_usec / span_usec` of one CPU, where `span_usec` is the elapsed
/// time times the number of CPUs.
pub struct PreparedStat {
    name: String,
    delta_usec: i128,
    span_usec: u128,
}

/// The colour of a load's bar.
#[derive(PartialEq, Eq, Structural, Clone, Copy, Debug)]
pub enum BarColor {
    Green,
    Yellow,
    Red,
}

/// The colour of the bar of the load `delta / span`, taken in `[0, 1]`:
/// green up to 0.75, yellow up to 0.95, red above.
pub open spec fn color_of(delta: int, span: int) -> BarColor {
    if delta * 100 <= 75 * span {
        BarColor::Green
    } else if delta * 100 <= 95 * span {
        BarColor::Yellow
    } else {
        BarColor::Red
    }
}

impl PreparedStat {
    #[verifier::type_invariant]
    spec fn inv(&self) -> bool {
        &&& -0x1_0000_0000_0000_0000 < self.delta_usec < 0x1_0000_0000_0000_0000
        &&& self.span_usec <= 0xffff_ffff_ffff_ffffu128 * 0xffff_ffffu128
    }

    /// Name, counter difference and span of the entry.
    pub closed spec fn view_triple(&self) -> (Seq<char>, int, int) {
        (self.name@, self.delta_usec as int, self.span_usec as int)
    }

    pub fn name(&self) -> (r: &String)
        ensures
            r@ == self.view_triple().0,
    {
        &self.name
    }

    /// Microseconds of CPU time used over the interval (negative where the
    /// counter went down).
    pub fn delta_usec(&self) -> (r: i128)
        ensures
            r == self.view_triple().1,
    {
        self.delta_usec
    }

    /// Microseconds elapsed times the number of CPUs.
    pub fn span_usec(&self) -> (r: u128)
        ensures
            r == self.view_triple().2,
    {
        self.span_usec
    }

    /// The colour of the entry's bar (see `color_of`).
    pub fn color(&self) -> (r: BarColor)
        ensures
            r == color_of(self.view_triple().1, self.view_triple().2),
    {
        proof {
            use_type_invariant(self);
        }
        let d: i128 = self.delta_usec * 100;
        let s: i128 = self.span_usec as i128;
        if d <= 75 * s {
            BarColor::Green
        } else if d <= 95 * s {
            BarColor::Yellow
        } else {
            BarColor::Red
        }
    }
}

pub open spec fn stats_view(v: Seq<PreparedStat>) -> Seq<(Seq<char>, int, int)> {
    v.map_values(|e: PreparedStat| e.view_triple())
}

/// The listed cgroups of one slice, in the order of `now`: each name of
/// `now` that `before` holds too and whose load over `span` meets `t`, with
/// the difference of its counters.
pub open spec fn expected_stats(
    now: Seq<(Seq<char>, u64)>,
    before: Map<Seq<char>, u64>,
    span: int,
    t: Threshold,
) -> Seq<(Seq<char>, int, int)>
    decreases now.len(),
{
    if now.len() == 0 {
        Seq::empty()
    } else {
        let rest = expected_stats(now.drop_last(), before, span, t);
        let k = now.last().0;
        if before.contains_key(k) && meets(now.last().1 - before[k], span, t) {
            rest.push((k, now.last().1 - before[k], span))
        } else {
            rest
        }
    }
}

/// Compares the counters of one slice at two times, `elapsed_usec`
/// microseconds apart on `num_cpus` CPUs, and lists in order of names the
/// cgroups that both hold whose load meets `threshold`.
pub fn get_prepared_stats(
    now: &UsageTable,
    before: &UsageTable,
    elapsed_usec: u64,
    num_cpus: u32,
    threshold: Threshold,
) -> (r: Vec<PreparedStat>)
    requires
        now.wf(),
        before.wf(),
        threshold.wf(),
    ensures
        stats_view(r@) == expected_stats(
            now.rows(),
            before@,
            elapsed_usec * num_cpus,
            threshold,
        ),
{
    assert(elapsed_usec * num_cpus <= 0xffff_ffff_ffff_ffffu128 * 0xffff_ffffu128)
        by (nonlinear_arith)
        requires
            elapsed_usec <= 0xffff_ffff_ffff_ffffu64,
            num_cpus <= 0xffff_ffffu32,
    ;
    let span: u128 = elapsed_usec as u128 * num_cpus as u128;
    let mut out: Vec<PreparedStat> = Vec::new();
    let n = now.len();
    let mut i: usize = 0;
    while i < n
        invariant
            i <= n == now.rows().len(),
            now.wf(),
            before.wf(),
            threshold.wf(),
            span == elapsed_usec * num_cpus,
            span <= 0xffff_ffff_ffff_ffffu128 * 0xffff_ffffu128,
            stats_view(out@) == expected_stats(
                now.rows().take(i as int),
                before@,
                span as int,
                threshold,
            ),
        decreases n - i,
    {
        let (name, usage) = now.row(i);
        let ghost prefix = now.rows().take(i + 1);
        assert(prefix.drop_last() == now.rows().take(i as int));
        assert(prefix.last() == now.rows()[i as int]);
        match before.get(&name) {
            Some(earlier) => {
                let delta: i128 = usage as i128 - earlier as i128;
                proof {
                    assert(-0x1_0000_0000_0000_0000 < delta < 0x1_0000_0000_0000_0000);
                    assert(-0x1_0000_0000_0000_0000_0000_0000 < delta * threshold.den
                        < 0x1_0000_0000_0000_0000_0000_0000) by (nonlinear_arith)
                        requires
                            -0x1_0000_0000_0000_0000 < delta < 0x1_0000_0000_0000_0000,
                            0 < threshold.den <= 0xffff_ffff,
                    ;
                    assert(-0x8000_0000_0000_0000_0000_0000_0000_0000 <= threshold.num * span
                        < 0x8000_0000_0000_0000_0000_0000_0000_0000) by (nonlinear_arith)
                        requires
                            -0x8000_0000 <= threshold.num < 0x8000_0000,
                            0 <= span <= 0xffff_ffff_ffff_ffffu128 * 0xffff_ffffu128,
                    ;
                }
                let lhs: i128 = delta * threshold.den as i128;
                let rhs: i128 = threshold.num as i128 * span as i128;
                if lhs >= rhs {
                    let ghost before_push = stats_view(out@);
                    out.push(PreparedStat { name, delta_usec: delta, span_usec: span });
                    assert(stats_view(out@) == before_push.push(
                        (prefix.last().0, delta as int, span as int),
                    ));
                }
            },
            None => {},
        }
        i = i + 1;
    }
    assert(now.rows().take(n as int) == now.rows());
    out
}

/// The greatest name length, in characters, among the entries (0 for none).
pub open spec fn widest(v: Seq<(Seq<char>, int, int)>) -> nat
    decreases v.len(),
{
    if v.len() == 0 {
        0
    } else {
        let w = widest(v.drop_last());
        if v.last().0.len() > w {
            v.last().0.len()
        } else {
            w
        }
    }
}

/// The greatest name length, in characters, among `v`.
pub fn max_name_width(v: &Vec<PreparedStat>) -> (r: usize)
    ensures
        r == widest(stats_view(v@)),
{
    let mut w: usize = 0;
    let mut i: usize = 0;
    while i < v.len()
        invariant
            i <= v.len(),
            w == widest(stats_view(v@).take(i as int)),
        decreases v.len() - i,
    {
        let ghost prefix = stats_view(v@).take(i + 1);
        assert(prefix.drop_last() == stats_view(v@).take(i as int));
        let len = v[i].name().as_str().unicode_len();
        if len > w {
            w = len;
        }
        i = i + 1;
    }
    assert(stats_view(v@).take(v.len() as int) == stats_view(v@));
    w
}

/// What the comparison of two snapshots yields for display.
pub struct PreparedCgStats {
    pub elapsed_usec: u64,
    pub max_name_width: usize,
    pub users: Vec<PreparedStat>,
    pub services: Vec<PreparedStat>,
}

impl Default for PreparedCgStats {
    /// Nothing to list, over no time.
    fn default() -> (r: PreparedCgStats)
        ensures
            r.is_empty(),
    {
        PreparedCgStats {
            elapsed_usec: 0,
            max_name_width: 0,
            users: Vec::new(),
            services: Vec::new(),
        }
    }
}

impl PreparedCgStats {
    pub open spec fn is_empty(&self) -> bool {
        &&& self.elapsed_usec == 0
        &&& self.max_name_width == 0
        &&& self.users@.len() == 0
        &&& self.services@.len() == 0
    }

    /// The result of comparing `now` with `before`, `before` being strictly
    /// older, on `num_cpus` CPUs with threshold `t`.
    pub open spec fn compares(&self, now: Snapshot, before: Snapshot, num_cpus: int, t: Threshold) -> bool {
        let elapsed = now.captured_at_usec - before.captured_at_usec;
        &&& self.elapsed_usec == elapsed
        &&& stats_view(self.users@) == expected_stats(
            now.user.rows(),
            before.user@,
            elapsed * num_cpus,
            t,
        )
        &&& stats_view(self.services@) == expected_stats(
            now.system.rows(),
            before.system@,
            elapsed * num_cpus,
            t,
        )
        &&& self.max_name_width == if widest(stats_view(self.users@)) >= widest(
            stats_view(self.services@),
        ) {
            widest(stats_view(self.users@))
        } else {
            widest(stats_view(self.services@))
        }
    }
}

/// Compares the snapshot `now` with `before`, taken `elapsed_usec`
/// microseconds earlier.
pub fn compare_snapshots(
    now: &Snapshot,
    before: &Snapshot,
    num_cpus: u32,
    threshold: Threshold,
) -> (r: PreparedCgStats)
    requires
        now.wf(),
        before.wf(),
        threshold.wf(),
        before.captured_at_usec < now.captured_at_usec,
    ensures
        r.compares(*now, *before, num_cpus as int, threshold),
{
    let elapsed_usec = now.captured_at_usec - before.captured_at_usec;
    let users = get_prepared_stats(&now.user, &before.user, elapsed_usec, num_cpus, threshold);
    let services = get_prepared_stats(
        &now.system,
        &before.system,
        elapsed_usec,
        num_cpus,
        threshold,
    );
    let wu = max_name_width(&users);
    let ws = max_name_width(&services);
    let max_name_width = if wu >= ws {
        wu
    } else {
        ws
    };
    PreparedCgStats { elapsed_usec, max_name_width, users, services }
}

/// The CPU statistics widget: where its snapshot is kept between runs, the
/// threshold of its listing, and what it prepared for display.
pub struct CgStats {
    pub state_file: String,
    pub threshold: Threshold,
    pub prepared: Option<PreparedCgStats>,
}

impl CgStats {
    /// Compares the current snapshot with the one that the state file held,
    /// if any. With none there is nothing to compare, and nothing to list; a
    /// stored snapshot that is not strictly older than `now` is an error.
    pub fn prepare_or_error(
        &self,
        now: &Snapshot,
        before: Option<&Snapshot>,
        num_cpus: u32,
    ) -> (r: Result<PreparedCgStats, CgStatsError>)
        requires
            now.wf(),
            before matches Some(b) ==> b.wf(),
            self.threshold.wf(),
        ensures
            before is None ==> (r matches Ok(p) && p.is_empty()),
            before is Some ==> (now.captured_at_usec <= before->Some_0.captured_at_usec <==> r is Err),
            before is Some && now.captured_at_usec <= before->Some_0.captured_at_usec ==> (r matches Err(
                CgStatsError::TimeSpan { path },
            ) && path@ == self.state_file@),
            before is Some && before->Some_0.captured_at_usec < now.captured_at_usec ==> (r matches Ok(
                p,
            ) && p.compares(*now, *before->Some_0, num_cpus as int, self.threshold)),
    {
        match before {
            None => Ok(PreparedCgStats::default()),
            Some(b) => {
                if now.captured_at_usec <= b.captured_at_usec {
                    Err(CgStatsError::TimeSpan { path: self.state_file.clone() })
                } else {
                    Ok(compare_snapshots(now, b, num_cpus, self.threshold))
                }
            },
        }
    }

    /// Prepares the listing and keeps it for display, answering the columns
    /// it needs; on an error nothing new is kept.
    pub fn prepare(&mut self, now: &Snapshot, before: Option<&Snapshot>, num_cpus: u32) -> (r: Result<
        Constraints,
        CgStatsError,
    >)
        requires
            now.wf(),
            before matches Some(b) ==> b.wf(),
            old(self).threshold.wf(),
        ensures
            final(self).state_file == old(self).state_file,
            final(self).threshold == old(self).threshold,
            r is Ok <==> (before is None || before->Some_0.captured_at_usec < now.captured_at_usec),
            r is Err ==> final(self).prepared == old(self).prepared,
            before is Some && now.captured_at_usec <= before->Some_0.captured_at_usec ==> (r matches Err(
                CgStatsError::TimeSpan { path },
            ) && path@ == old(self).state_file@),
            r is Ok ==> (final(self).prepared matches Some(p) && r->Ok_0.min_width == Some(
                min_width_of(p.max_name_width),
            ) && (before is None ==> p.is_empty()) && (
            before is Some ==> p.compares(*now, *before->Some_0, num_cpus as int, old(self).threshold))),
    {
        match self.prepare_or_error(now, before, num_cpus) {
            Ok(p) => {
                let w = min_width(p.max_name_width);
                self.prepared = Some(p);
                Ok(Constraints { min_width: Some(w) })
            },
            Err(e) => Err(e),
        }
    }
}

/// Whether `e` is a correct entry for the name it carries: present in
/// both mappings, with the difference of its counters, over `span`, and
/// meeting `t`.
pub open spec fn entry_fits(
    now: Map<Seq<char>, u64>,
    before: Map<Seq<char>, u64>,
    span: int,
    t: Threshold,
    e: (Seq<char>, int, int),
) -> bool {
    &&& now.contains_key(e.0)
    &&& before.contains_key(e.0)
    &&& e.1 == now[e.0] - before[e.0]
    &&& e.2 == span
    &&& meets(e.1, span, t)
}

proof fn lemma_expected_stats(r: Seq<(Seq<char>, u64)>, m: Map<Seq<char>, u64>, span: int, t: Threshold)
    requires
        rows_sorted(r),
    ensures
        forall|j: int|
            0 <= j < expected_stats(r, m, span, t).len() ==> entry_fits(
                rows_map(r),
                m,
                span,
                t,
                #[trigger] expected_stats(r, m, span, t)[j],
            ),
        forall|q: Seq<char>|
            #[trigger] rows_map(r).contains_key(q) && m.contains_key(q) && meets(
                rows_map(r)[q] - m[q],
                span,
                t,
            ) ==> exists|j: int|
                0 <= j < expected_stats(r, m, span, t).len() && #[trigger] expected_stats(
                    r,
                    m,
                    span,
                    t,
                )[j].0 == q,
        forall|j: int, k: int|
            0 <= j < k < expected_stats(r, m, span, t).len() ==> name_lt(
                #[trigger] expected_stats(r, m, span, t)[j].0,
                #[trigger] expected_stats(r, m, span, t)[k].0,
            ),
    decreases r.len(),
{
    let e = expected_stats(r, m, span, t);
    if r.len() == 0 {
        assert forall|q: Seq<char>| !#[trigger] rows_map(r).contains_key(q) by {}
    } else {
        let r0 = r.drop_last();
        let n = r.len() - 1;
        assert(rows_sorted(r0)) by {
            assert forall|i: int, j: int| 0 <= i < j < r0.len() implies name_lt(
                #[trigger] r0[i].0,
                #[trigger] r0[j].0,
            ) by {
                assert(r0[i] == r[i] && r0[j] == r[j]);
            }
        }
        lemma_expected_stats(r0, m, span, t);
        let e0 = expected_stats(r0, m, span, t);
        let k = r.last().0;
        lemma_rows_map_at(r, n);
        // Names of the shorter rows keep their counters in the longer ones.
        assert forall|q: Seq<char>| #[trigger] rows_map(r0).contains_key(q) implies rows_map(
            r,
        ).contains_key(q) && rows_map(r)[q] == rows_map(r0)[q] && name_lt(q, k) by {
            let i = crate::usage::row_index(r0, q);
            lemma_rows_map_at(r0, i);
            assert(r0[i] == r[i]);
            lemma_rows_map_at(r, i);
        }
        assert forall|j: int| 0 <= j < e.len() implies entry_fits(
            rows_map(r),
            m,
            span,
            t,
            #[trigger] e[j],
        ) by {
            if j < e0.len() {
                assert(e[j] == e0[j]);
                assert(entry_fits(rows_map(r0), m, span, t, e0[j]));
            }
        }
        assert forall|q: Seq<char>|
            #[trigger] rows_map(r).contains_key(q) && m.contains_key(q) && meets(
                rows_map(r)[q] - m[q],
                span,
                t,
            ) implies exists|j: int| 0 <= j < e.len() && #[trigger] e[j].0 == q by {
            if q == k {
                assert(e[e.len() - 1].0 == q);
            } else {
                let i = crate::usage::row_index(r, q);
                lemma_rows_map_at(r, i);
                if i == n {
                } else {
                    assert(r0[i] == r[i]);
                    lemma_rows_map_at(r0, i);
                    assert(rows_map(r0).contains_key(q));
                    let j = choose|j: int| 0 <= j < e0.len() && #[trigger] e0[j].0 == q;
                    assert(e[j] == e0[j]);
                }
            }
        }
        assert forall|j: int, l: int| 0 <= j < l < e.len() implies name_lt(
            #[trigger] e[j].0,
            #[trigger] e[l].0,
        ) by {
            if l < e0.len() {
                assert(e[j] == e0[j] && e[l] == e0[l]);
            } else {
                assert(e[j] == e0[j]);
                assert(entry_fits(rows_map(r0), m, span, t, e0[j]));
            }
        }
    }
}

/// Only cgroups that both snapshots hold are listed: a name that only one
/// of them holds never appears, and each entry carries the difference of the
/// name's two counters.
pub proof fn lemma_only_common_names_listed(now: UsageTable, before: UsageTable, span: int, t: Threshold)
    requires
        now.wf(),
    ensures
        forall|j: int|
            0 <= j < expected_stats(now.rows(), before@, span, t).len() ==> entry_fits(
                now@,
                before@,
                span,
                t,
                #[trigger] expected_stats(now.rows(), before@, span, t)[j],
            ),
        forall|q: Seq<char>|
            !now@.contains_key(q) || !before@.contains_key(q) ==> forall|j: int|
                0 <= j < expected_stats(now.rows(), before@, span, t).len() ==> #[trigger] expected_stats(
                    now.rows(),
                    before@,
                    span,
                    t,
                )[j].0 != q,
{
    lemma_expected_stats(now.rows(), before@, span, t);
}

/// A cgroup of both snapshots is listed exactly when its load meets the
/// threshold.
pub proof fn lemma_listed_iff_load_meets_threshold(
    now: UsageTable,
    before: UsageTable,
    span: int,
    t: Threshold,
    q: Seq<char>,
)
    requires
        now.wf(),
        now@.contains_key(q),
        before@.contains_key(q),
    ensures
        (exists|j: int|
            0 <= j < expected_stats(now.rows(), before@, span, t).len() && #[trigger] expected_stats(
                now.rows(),
                before@,
                span,
                t,
            )[j].0 == q) <==> meets(now@[q] - before@[q], span, t),
{
    lemma_expected_stats(now.rows(), before@, span, t);
}

/// Entries are listed in strictly increasing lexicographic order of names.
pub proof fn lemma_listed_in_name_order(now: UsageTable, before: UsageTable, span: int, t: Threshold)
    requires
        now.wf(),
    ensures
        forall|j: int, k: int|
            0 <= j < k < expected_stats(now.rows(), before@, span, t).len() ==> name_lt(
                #[trigger] expected_stats(now.rows(), before@, span, t)[j].0,
                #[trigger] expected_stats(now.rows(), before@, span, t)[k].0,
            ),
{
    lemma_expected_stats(now.rows(), before@, span, t);
}

/// Where every name that both snapshots hold has the same counter in both,
/// every load listed is exactly zero, and nothing is listed unless the
/// threshold is at most zero; then every such name is listed.
pub proof fn lemma_unchanged_counters(now: UsageTable, before: UsageTable, span: int, t: Threshold)
    requires
        now.wf(),
        t.wf(),
        span > 0,
        forall|q: Seq<char>|
            #[trigger] now@.contains_key(q) && before@.contains_key(q) ==> now@[q] == before@[q],
    ensures
        forall|j: int|
            0 <= j < expected_stats(now.rows(), before@, span, t).len() ==> #[trigger] expected_stats(
                now.rows(),
                before@,
                span,
                t,
            )[j].1 == 0,
        t.num > 0 ==> expected_stats(now.rows(), before@, span, t).len() == 0,
        t.num <= 0 ==> forall|q: Seq<char>|
            #[trigger] now@.contains_key(q) && before@.contains_key(q) ==> exists|j: int|
                0 <= j < expected_stats(now.rows(), before@, span, t).len() && #[trigger] expected_stats(
                    now.rows(),
                    before@,
                    span,
                    t,
                )[j].0 == q,
{
    let e = expected_stats(now.rows(), before@, span, t);
    lemma_expected_stats(now.rows(), before@, span, t);
    assert forall|j: int| 0 <= j < e.len() implies #[trigger] e[j].1 == 0 by {
        assert(entry_fits(now@, before@, span, t, e[j]));
    }
    if t.num > 0 && e.len() > 0 {
        assert(entry_fits(now@, before@, span, t, e[0]));
        assert(t.num * span > 0) by (nonlinear_arith)
            requires
                t.num > 0,
                span > 0,
        ;
    }
    if t.num <= 0 {
        assert forall|q: Seq<char>| #[trigger]
            now@.contains_key(q) && before@.contains_key(q) implies exists|j: int|
            0 <= j < e.len() && #[trigger] e[j].0 == q by {
            assert(t.num * span <= 0) by (nonlinear_arith)
                requires
                    t.num <= 0,
                    span > 0,
            ;
            assert(meets(now@[q] - before@[q], span, t));
        }
    }
}

/// A counter that went down (a cgroup made anew under the same name) gives
/// a negative load: with a positive threshold the name is not listed; with
/// a threshold at most zero it is listed, with its negative difference,
/// wherever that load still meets the threshold.
pub proof fn lemma_decreased_counter(
    now: UsageTable,
    before: UsageTable,
    span: int,
    t: Threshold,
    q: Seq<char>,
)
    requires
        now.wf(),
        t.wf(),
        span > 0,
        now@.contains_key(q),
        before@.contains_key(q),
        now@[q] < before@[q],
    ensures
        t.num > 0 ==> forall|j: int|
            0 <= j < expected_stats(now.rows(), before@, span, t).len() ==> #[trigger] expected_stats(
                now.rows(),
                before@,
                span,
                t,
            )[j].0 != q,
        t.num <= 0 && meets(now@[q] - before@[q], span, t) ==> exists|j: int|
            0 <= j < expected_stats(now.rows(), before@, span, t).len() && #[trigger] expected_stats(
                now.rows(),
                before@,
                span,
                t,
            )[j].0 == q && expected_stats(now.rows(), before@, span, t)[j].1 < 0,
{
    let e = expected_stats(now.rows(), before@, span, t);
    lemma_expected_stats(now.rows(), before@, span, t);
    if t.num > 0 {
        assert forall|j: int| 0 <= j < e.len() implies #[trigger] e[j].0 != q by {
            if e[j].0 == q {
                assert(entry_fits(now@, before@, span, t, e[j]));
                let d = now@[q] - before@[q];
                assert(d * t.den < 0) by (nonlinear_arith)
                    requires
                        d < 0,
                        t.den > 0,
                ;
                assert(t.num * span > 0) by (nonlinear_arith)
                    requires
                        t.num > 0,
                        span > 0,
                ;
            }
        }
    }
    if t.num <= 0 && meets(now@[q] - before@[q], span, t) {
        let j = choose|j: int| 0 <= j < e.len() && #[trigger] e[j].0 == q;
        assert(entry_fits(now@, before@, span, t, e[j]));
    }
}

} // verus!
