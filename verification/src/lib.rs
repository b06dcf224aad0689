//! A parallel-batch executor registry.
//!
//! A `Batch` owns an ordered registry of jobs together with the policy that
//! governs how they are run: the batch size, the wait inserted between
//! batches, and whether timing statistics are wanted.  The registry itself
//! never runs anything; it computes a schedule — a sequence of dispatch and
//! pause steps — that a thread-spawning runner follows.  Partition
//! membership, group count and pause placement are all pinned down here.

use vstd::prelude::*;

pub mod plan;

verus! {

pub use crate::plan::Step;

/// The job registry and its execution policy.
///
/// `J` is the handle under which a caller registers one job; the registry
/// never looks inside it.  Jobs keep their registration order, which decides
/// the partition each falls into when run batched.
pub struct Batch<J> {
    /// Size of each partition for a batched run.
    pub size: usize,
    /// The registered jobs, in registration order.
    pub functions: Vec<J>,
    /// Whether a runner should report elapsed time.
    pub stats: bool,
    /// Milliseconds to pause between consecutive partitions.
    pub batch_wait_dur: u64,
}

impl<J> Batch<J> {
    /// An empty registry: no jobs, batch size zero, statistics off, no wait.
    pub fn new() -> (b: Self)
        ensures
            b.size == 0,
            b.functions@.len() == 0,
            b.stats == false,
            b.batch_wait_dur == 0,
    {
        Self { size: 0, functions: Vec::new(), stats: false, batch_wait_dur: 0 }
    }

    /// Sets the partition size for batched runs; everything else is kept.
    pub fn set_size(&mut self, s: usize)
        ensures
            final(self).size == s,
            final(self).functions@ == old(self).functions@,
            final(self).stats == old(self).stats,
            final(self).batch_wait_dur == old(self).batch_wait_dur,
    {
        self.size = s;
    }

    /// Toggles timing statistics; everything else is kept.
    pub fn set_stats(&mut self, s: bool)
        ensures
            final(self).stats == s,
            final(self).functions@ == old(self).functions@,
            final(self).size == old(self).size,
            final(self).batch_wait_dur == old(self).batch_wait_dur,
    {
        self.stats = s;
    }

    /// Sets the pause between partitions, in milliseconds; everything else
    /// is kept.
    pub fn set_batch_wait_dur(&mut self, s: u64)
        ensures
            final(self).batch_wait_dur == s,
            final(self).functions@ == old(self).functions@,
            final(self).size == old(self).size,
            final(self).stats == old(self).stats,
    {
        self.batch_wait_dur = s;
    }

    /// Appends one job to the registry; the policy fields are kept.
    pub fn add_func(&mut self, func: J)
        ensures
            final(self).functions@ == old(self).functions@.push(func),
            final(self).size == old(self).size,
            final(self).stats == old(self).stats,
            final(self).batch_wait_dur == old(self).batch_wait_dur,
    {
        self.functions.push(func);
    }

    /// How many jobs are registered.
    pub fn length(&self) -> (n: usize)
        ensures
            n == self.functions@.len(),
    {
        self.functions.len()
    }

    /// The wall clock read as whole milliseconds since the Unix epoch.
    ///
    /// Relies on std::time::SystemTime: `now` read once, the span since the
    /// epoch taken as milliseconds and truncated to 64 bits; zero when the
    /// clock reads earlier than the epoch.  Nothing is promised of the
    /// result: the clock is the machine's.
    #[verifier::external_body]
    pub fn get_time_in_ms(&self) -> u64 {
        match std::time::SystemTime::now().duration_since(std::time::UNIX_EPOCH) {
            Ok(since_the_epoch) => since_the_epoch.as_millis() as u64,
            Err(_) => 0,
        }
    }

    /// The schedule of a concurrent run: every registered job dispatched as
    /// one group.
    pub fn linear_schedule(&self) -> (r: Vec<Step>)
        ensures
            r@.len() == 1,
            r@[0] is Run,
            r@[0]->start == 0,
            r@[0]->end == self.functions@.len(),
    {
        let mut steps: Vec<Step> = Vec::new();
        steps.push(Step::Run { start: 0, end: self.functions.len() });
        steps
    }

    /// The schedule of a batched run: the registry split into groups of
    /// `size` jobs in registration order, the last group possibly smaller,
    /// with a pause of `batch_wait_dur` milliseconds between consecutive
    /// groups when that wait is positive.  A batch size of zero admits no
    /// partition and is rejected with `None`.
    pub fn batched_schedule(&self) -> (r: Option<Vec<Step>>)
        ensures
            r is Some <==> self.size > 0,
            (r matches Some(p) ==> crate::plan::is_batched_schedule(
                p@,
                self.functions@.len() as int,
                self.size as int,
                self.batch_wait_dur,
            )),
    {
        if self.size == 0 {
            return None;
        }
        let n = self.functions.len();
        let b = self.size;
        let w = self.batch_wait_dur;
        let mut steps: Vec<Step> = Vec::new();
        let mut prev: usize = 0;
        let ghost mut k: int = 0;
        while n - prev > b
            invariant
                0 < b <= usize::MAX,
                prev <= n,
                prev == 0 || prev < n,
                0 <= k,
                prev as int == k * b,
                steps@.len() == crate::plan::run_pos(k, w),
                forall|j: int|
                    0 <= j < steps@.len() ==> steps@[j] == crate::plan::step_at(
                        j,
                        n as int,
                        b as int,
                        w,
                    ),
            decreases n - prev,
        {
            proof {
                assert((k + 1) * b == k * b + b) by (nonlinear_arith);
            }
            steps.push(Step::Run { start: prev, end: prev + b });
            if w > 0 {
                steps.push(Step::Pause { ms: w });
            }
            prev = prev + b;
            proof {
                k = k + 1;
            }
        }
        proof {
            lemma_schedule_loop_exit(n as int, b as int, w, prev as int, k, steps@);
        }
        if prev < n {
            steps.push(Step::Run { start: prev, end: n });
        }
        Some(steps)
    }
}

/// At the exit of the partition loop the steps built so far, together with
/// the final group when jobs remain, form the whole batched schedule.
proof fn lemma_schedule_loop_exit(n: int, b: int, w: u64, prev: int, k: int, s: Seq<Step>)
    requires
        b > 0,
        0 <= k,
        prev == k * b,
        prev <= n,
        prev == 0 || prev < n,
        n - prev <= b,
        s.len() == crate::plan::run_pos(k, w),
        forall|j: int| 0 <= j < s.len() ==> s[j] == crate::plan::step_at(j, n, b, w),
    ensures
        prev < n ==> crate::plan::num_batches(n, b) == k + 1,
        prev < n ==> crate::plan::is_batched_schedule(
            s.push(crate::plan::step_at(s.len() as int, n, b, w)),
            n,
            b,
            w,
        ),
        !(prev < n) ==> n == 0 && crate::plan::is_batched_schedule(s, n, b, w),
{
    if prev < n {
        assert(crate::plan::num_batches(n, b) == k + 1) by (nonlinear_arith)
            requires
                b > 0,
                0 <= k,
                k * b < n,
                n <= k * b + b,
        ;
        let t = s.push(crate::plan::step_at(s.len() as int, n, b, w));
        assert(t.len() == crate::plan::schedule_len(n, b, w));
        assert forall|j: int| 0 <= j < t.len() implies t[j] == crate::plan::step_at(
            j,
            n,
            b,
            w,
        ) by {
            if j < s.len() {
                assert(t[j] == s[j]);
            }
        }
    } else {
        assert(n == 0);
        assert(k == 0) by (nonlinear_arith)
            requires
                b > 0,
                0 <= k,
                k * b == 0,
        ;
        assert(crate::plan::num_batches(0, b) == 0) by (nonlinear_arith)
            requires
                b > 0,
        ;
    }
}

} // verus!
