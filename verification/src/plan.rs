//! The shape of a run: partitions and the batched schedule.
//!
//! A batched run splits the registry into fixed-size groups by registration
//! order and dispatches them one after the other, pausing in between when a
//! wait is configured.  The spec functions here say exactly which job
//! indices make up each group, how many groups there are, and what step
//! stands at each position of a batched schedule; the lemmas state the laws
//! a runner can rely on.

use vstd::prelude::*;

verus! {

/// One step of a run, in the order a runner performs them: dispatch the
/// jobs whose indices lie in `[start, end)` as one concurrent group, or
/// pause for `ms` milliseconds.
#[derive(Clone, Copy, Debug, PartialEq, Eq, Structural)]
pub enum Step {
    Run { start: usize, end: usize },
    Pause { ms: u64 },
}

/// How many groups a registry of `n` jobs splits into under batch size `b`:
/// the ceiling of `n / b`.
pub open spec fn num_batches(n: int, b: int) -> int
    recommends
        b > 0,
{
    (n + b - 1) / b
}

/// First job index of group `k`.
pub open spec fn batch_start(k: int, b: int) -> int {
    k * b
}

/// One past the last job index of group `k` in a registry of `n` jobs; the
/// final group may stop short of a full `b`.
pub open spec fn batch_end(k: int, b: int, n: int) -> int {
    if k * b + b <= n {
        k * b + b
    } else {
        n
    }
}

/// The step standing at position `j` of a batched schedule for `n` jobs,
/// batch size `b` and wait `w`: with a positive wait, groups at even
/// positions separated by pauses; without one, only groups.
pub open spec fn step_at(j: int, n: int, b: int, w: u64) -> Step
    recommends
        b > 0,
{
    if w > 0 {
        if j % 2 == 0 {
            Step::Run {
                start: batch_start(j / 2, b) as usize,
                end: batch_end(j / 2, b, n) as usize,
            }
        } else {
            Step::Pause { ms: w }
        }
    } else {
        Step::Run { start: batch_start(j, b) as usize, end: batch_end(j, b, n) as usize }
    }
}

/// How long a batched schedule is: one step per group, plus one pause
/// between consecutive groups when the wait is positive.
pub open spec fn schedule_len(n: int, b: int, w: u64) -> int
    recommends
        b > 0,
{
    let g = num_batches(n, b);
    if g == 0 {
        0
    } else if w > 0 {
        2 * g - 1
    } else {
        g
    }
}

/// What a batched schedule for `n` jobs, batch size `b` and wait `w` is:
/// the right length, and the right step at every position.
pub open spec fn is_batched_schedule(s: Seq<Step>, n: int, b: int, w: u64) -> bool
    recommends
        b > 0,
{
    &&& s.len() == schedule_len(n, b, w)
    &&& forall|j: int| 0 <= j < s.len() ==> s[j] == step_at(j, n, b, w)
}

/// How many dispatch steps a schedule holds.
pub open spec fn run_count(s: Seq<Step>) -> int
    decreases s.len(),
{
    if s.len() == 0 {
        0
    } else {
        run_count(s.drop_last()) + if s.last() is Run {
            1int
        } else {
            0int
        }
    }
}

/// Position of group `k`'s dispatch step within a batched schedule.
pub open spec fn run_pos(k: int, w: u64) -> int {
    if w > 0 {
        2 * k
    } else {
        k
    }
}

/// An index outside `[k * b, k * b + b)` never divides to `k`.
proof fn lemma_group_of_index(b: int, i: int, k: int) by (nonlinear_arith)
    requires
        b > 0,
        0 <= i,
        0 <= k,
        k != i / b,
    ensures
        !(k * b <= i < k * b + b),
{
}

/// Registration order decides partition membership: the job at index `i`
/// lies in group `i / b`, inside that group's bounds, and in no other
/// group.
pub proof fn lemma_job_partition(n: int, b: int, i: int)
    requires
        b > 0,
        0 <= i < n,
    ensures
        0 <= i / b < num_batches(n, b),
        batch_start(i / b, b) <= i < batch_end(i / b, b, n),
        forall|k: int|
            0 <= k && k != i / b ==> !(#[trigger] batch_start(k, b) <= i < batch_end(k, b, n)),
{
    let q = i / b;
    assert(0 <= q && q * b <= i < q * b + b) by (nonlinear_arith)
        requires
            b > 0,
            0 <= i,
            q == i / b,
    ;
    assert(num_batches(n, b) > q) by (nonlinear_arith)
        requires
            b > 0,
            0 <= q,
            q * b < n,
    ;
    assert forall|k: int| 0 <= k && k != q implies !(#[trigger] batch_start(k, b) <= i
        < batch_end(k, b, n)) by {
        lemma_group_of_index(b, i, k);
    }
}

/// Dispatch steps in a prefix of a pointwise-characterized schedule: one
/// per position without a wait, one per even position with one.
proof fn lemma_run_count_prefix(s: Seq<Step>, n: int, b: int, w: u64, m: int)
    requires
        b > 0,
        forall|j: int| 0 <= j < s.len() ==> s[j] == step_at(j, n, b, w),
        0 <= m <= s.len(),
    ensures
        run_count(s.take(m)) == if w > 0 {
            (m + 1) / 2
        } else {
            m
        },
    decreases m,
{
    if m == 0 {
        assert(s.take(0) =~= Seq::<Step>::empty());
    } else {
        lemma_run_count_prefix(s, n, b, w, m - 1);
        assert(s.take(m).drop_last() =~= s.take(m - 1));
        assert(s.take(m).last() == s[m - 1]);
    }
}

/// A batched run dispatches exactly `ceil(n / b)` sequential groups.
pub proof fn lemma_schedule_group_count(s: Seq<Step>, n: int, b: int, w: u64)
    requires
        b > 0,
        0 <= n,
        is_batched_schedule(s, n, b, w),
    ensures
        run_count(s) == num_batches(n, b),
{
    lemma_run_count_prefix(s, n, b, w, s.len() as int);
    assert(s.take(s.len() as int) =~= s);
    assert(num_batches(n, b) >= 0) by (nonlinear_arith)
        requires
            b > 0,
            0 <= n,
    ;
}

/// A wait of zero puts no pause anywhere in a batched schedule: every step
/// dispatches a group.
pub proof fn lemma_zero_wait_no_pause(s: Seq<Step>, n: int, b: int)
    requires
        b > 0,
        is_batched_schedule(s, n, b, 0),
    ensures
        forall|j: int| 0 <= j < s.len() ==> s[j] is Run,
{
}

/// Every pause in a batched schedule lasts exactly the configured wait.
pub proof fn lemma_pause_is_wait(s: Seq<Step>, n: int, b: int, w: u64)
    requires
        b > 0,
        is_batched_schedule(s, n, b, w),
    ensures
        forall|j: int| 0 <= j < s.len() && s[j] is Pause ==> s[j]->ms == w,
{
}

/// Each job is dispatched exactly once per batched run: the job at index
/// `i` is covered by the dispatch step of group `i / b` and by no other
/// dispatch step of the schedule.
pub proof fn lemma_job_dispatched_once(s: Seq<Step>, n: int, b: int, w: u64, i: int)
    requires
        b > 0,
        0 <= n <= usize::MAX,
        is_batched_schedule(s, n, b, w),
        0 <= i < n,
    ensures
        0 <= run_pos(i / b, w) < s.len(),
        s[run_pos(i / b, w)] is Run,
        s[run_pos(i / b, w)]->start <= i < s[run_pos(i / b, w)]->end,
        forall|j: int|
            0 <= j < s.len() && s[j] is Run && j != run_pos(i / b, w) ==> !(s[j]->start <= i
                < s[j]->end),
{
    let q = i / b;
    let pos = run_pos(q, w);
    let g = num_batches(n, b);
    lemma_job_partition(n, b, i);
    assert(0 <= q * b) by (nonlinear_arith)
        requires
            b > 0,
            0 <= q,
    ;
    assert(s[pos] == step_at(pos, n, b, w));
    assert forall|j: int|
        0 <= j < s.len() && s[j] is Run && j != pos implies !(s[j]->start <= i
        < s[j]->end) by {
        assert(s[j] == step_at(j, n, b, w));
        let kj = if w > 0 {
            j / 2
        } else {
            j
        };
        if w > 0 {
            assert(j % 2 == 0);
        }
        assert(0 <= kj < g);
        assert(0 <= kj * b && kj * b < n) by (nonlinear_arith)
            requires
                b > 0,
                n >= 1,
                0 <= kj,
                kj < g,
                g == (n + b - 1) / b,
        ;
        assert(s[j]->start == batch_start(kj, b) as usize);
        assert(s[j]->end == batch_end(kj, b, n) as usize);
        assert(kj != q);
        assert(!(batch_start(kj, b) <= i < batch_end(kj, b, n)));
    }
}

} // verus!
