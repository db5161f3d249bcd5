//! The scaling state machine that ties measurement windows to pool-size
//! changes.
//!
//! In continuous-ramp mode the engine accumulates round-trip samples into a
//! window; when the window reaches the flush threshold it is consumed
//! atomically: the statistics are computed, a result row is produced tagged
//! with the connection count at flush time, and exactly one scaling action
//! is decided.  The pool is never touched mid-window.  While the phase is
//! `Increasing` each flush grows the pool by the configured step, bounded by
//! the ceiling; reaching the ceiling flips the phase to `Decreasing`, where
//! each flush shrinks by the step until the pool is empty and the run
//! finishes.
//!
//! Growth is asynchronous for the shell — connections may fail to open — so
//! a flush in the `Increasing` phase leaves the engine waiting in
//! `pending_grow` until the shell reports, through [`ContinuousEngine::grown`],
//! how many connections actually came up.  No samples are accepted while the
//! pool is being resized, so a window never mixes samples from two pool
//! sizes.
//!
//! Discrete-levels mode is a fixed schedule of pool sizes, each repeated a
//! configured number of times; [`DiscreteSchedule`] walks it and
//! [`throughput_milli_per_sec`] turns a round-trip count into the throughput
//! figure reported for each repetition.

use vstd::prelude::*;

use crate::pool::IdlePool;
use crate::pool::spec_grow_quota;
use crate::pool::spec_shrink_count;
use crate::probe::ProbeSample;
use crate::stats::AggregatedStats;
use crate::stats::MAX_WINDOW_LEN;
use crate::stats::aggregate;
use crate::stats::stats_describe;

verus! {

/// When a window is flushed: either after a fixed number of samples, or
/// after a number that depends on which side of a connection-count boundary
/// the run currently stands (coarser windows at low connection counts,
/// finer at high ones, or the other way round).
#[derive(Clone, Copy, Debug, PartialEq, Eq, Structural)]
pub enum FlushPolicy {
    Fixed(usize),
    Adaptive { boundary: usize, below: usize, above: usize },
}

/// The flush threshold the policy prescribes at a given connection count.
pub open spec fn spec_threshold(p: FlushPolicy, conn_count: int) -> int {
    match p {
        FlushPolicy::Fixed(t) => t as int,
        FlushPolicy::Adaptive { boundary, below, above } => if conn_count < boundary {
            below as int
        } else {
            above as int
        },
    }
}

/// Every threshold the policy can prescribe is a usable window length.
pub open spec fn policy_wf(p: FlushPolicy) -> bool {
    match p {
        FlushPolicy::Fixed(t) => 1 <= t <= MAX_WINDOW_LEN,
        FlushPolicy::Adaptive { boundary, below, above } => {
            &&& 1 <= below <= MAX_WINDOW_LEN
            &&& 1 <= above <= MAX_WINDOW_LEN
        },
    }
}

/// The flush threshold prescribed at `conn_count`.
pub fn threshold_for(p: &FlushPolicy, conn_count: usize) -> (r: usize)
    ensures
        r == spec_threshold(*p, conn_count as int),
{
    match p {
        FlushPolicy::Fixed(t) => *t,
        FlushPolicy::Adaptive { boundary, below, above } => if conn_count < *boundary {
            *below
        } else {
            *above
        },
    }
}

/// The two states of a continuous-ramp run.
#[derive(Clone, Copy, Debug, PartialEq, Eq, Structural)]
pub enum ScalingPhase {
    Increasing,
    Decreasing,
}

/// What the shell must do in response to a flush.
#[derive(Clone, Copy, Debug, PartialEq, Eq, Structural)]
pub enum ScalingAction {
    /// Open this many idle connections, then report through `grown` how
    /// many came up.
    Grow(usize),
    /// This many idle connections were removed from the pool; cancel the
    /// most recently added ones.
    Shrink(usize),
}

/// One row of the benchmark output: the statistics of one flushed window,
/// tagged with the connection count observed at flush time and the version
/// label of the system under test.
pub struct ResultRow {
    pub connection_count: usize,
    pub stats: AggregatedStats,
    pub version_label: String,
}

/// Everything one flush produces: the result row and the scaling action.
pub struct FlushOutcome {
    pub row: ResultRow,
    pub action: ScalingAction,
}

/// The continuous-ramp benchmark engine: sample aggregation, flush-driven
/// scaling, and the phase state machine, as one synchronous core.
pub struct ContinuousEngine {
    pub window: Vec<u32>,
    pub version_label: String,
    pub policy: FlushPolicy,
    pub flush_threshold: usize,
    pub pool: IdlePool,
    pub phase: ScalingPhase,
    pub step: usize,
    pub fixed_overhead: usize,
    pub extended: bool,
    pub filtered: bool,
    pub pending_grow: Option<usize>,
    pub finished: bool,
}

impl ContinuousEngine {
    /// The connection count the run currently holds open: the fixed
    /// overhead (probe pair and monitoring connection) plus the idle pool.
    pub open spec fn spec_connection_count(self) -> int {
        self.fixed_overhead + self.pool.size
    }

    pub open spec fn wf(self) -> bool {
        &&& self.pool.wf()
        &&& policy_wf(self.policy)
        &&& self.flush_threshold == spec_threshold(self.policy, self.spec_connection_count())
        &&& self.window@.len() < self.flush_threshold
        &&& self.step >= 1
        &&& self.fixed_overhead + self.pool.ceiling <= usize::MAX
        &&& (self.pending_grow matches Some(q) ==> {
            &&& q <= self.pool.ceiling - self.pool.size
            &&& self.phase is Increasing
        })
        &&& (self.finished ==> self.pool.size == 0 && self.phase is Decreasing)
    }

    /// A fresh engine: empty window, empty pool, phase `Increasing`.
    pub fn new(
        ceiling: usize,
        step: usize,
        fixed_overhead: usize,
        policy: FlushPolicy,
        extended: bool,
        filtered: bool,
        version_label: String,
    ) -> (r: ContinuousEngine)
        requires
            step >= 1,
            policy_wf(policy),
            fixed_overhead + ceiling <= usize::MAX,
        ensures
            r.wf(),
            r.version_label@ == version_label@,
            r.pool.size == 0,
            r.pool.ceiling == ceiling,
            r.phase is Increasing,
            r.window@ == Seq::<u32>::empty(),
            r.step == step,
            r.fixed_overhead == fixed_overhead,
            r.policy == policy,
            r.extended == extended,
            r.filtered == filtered,
            r.pending_grow is None,
            !r.finished,
    {
        let pool = IdlePool::new(ceiling);
        let flush_threshold = threshold_for(&policy, fixed_overhead);
        ContinuousEngine {
            window: Vec::new(),
            version_label,
            policy,
            flush_threshold,
            pool,
            phase: ScalingPhase::Increasing,
            step,
            fixed_overhead,
            extended,
            filtered,
            pending_grow: None,
            finished: false,
        }
    }

    /// Takes one round-trip sample.  Below the flush threshold the sample
    /// is only accumulated.  At the threshold the window is consumed: the
    /// returned outcome carries the statistics row — tagged with the
    /// connection count at flush time — and the scaling action, and the
    /// window is cleared before any pool change can take effect.
    pub fn on_sample(&mut self, sample: ProbeSample) -> (r: Option<FlushOutcome>)
        requires
            old(self).wf(),
            !old(self).finished,
            old(self).pending_grow is None,
        ensures
            final(self).wf(),
            final(self).policy == old(self).policy,
            final(self).step == old(self).step,
            final(self).fixed_overhead == old(self).fixed_overhead,
            final(self).extended == old(self).extended,
            final(self).filtered == old(self).filtered,
            final(self).pool.ceiling == old(self).pool.ceiling,
            final(self).version_label@ == old(self).version_label@,
            r is None <==> old(self).window@.len() + 1 < old(self).flush_threshold,
            r is None ==> {
                &&& final(self).window@ == old(self).window@.push(sample.round_trip_micros)
                &&& final(self).pool == old(self).pool
                &&& final(self).phase == old(self).phase
                &&& !final(self).finished
                &&& final(self).pending_grow is None
            },
            r matches Some(o) ==> {
                &&& o.row.connection_count == old(self).fixed_overhead + old(self).pool.size
                &&& o.row.version_label@ == old(self).version_label@
                &&& stats_describe(
                    o.row.stats,
                    old(self).window@.push(sample.round_trip_micros),
                    old(self).extended,
                    old(self).filtered,
                )
                &&& final(self).window@ == Seq::<u32>::empty()
                &&& (old(self).phase is Increasing ==> {
                    &&& o.action matches ScalingAction::Grow(q)
                        && q == spec_grow_quota(old(self).pool, old(self).step as int)
                        && final(self).pending_grow == Some(q)
                    &&& final(self).pool == old(self).pool
                    &&& final(self).phase is Increasing
                    &&& !final(self).finished
                })
                &&& (old(self).phase is Decreasing ==> {
                    &&& o.action matches ScalingAction::Shrink(k)
                        && k == spec_shrink_count(old(self).pool, old(self).step as int)
                        && final(self).pool.size == old(self).pool.size - k
                    &&& final(self).phase is Decreasing
                    &&& final(self).pending_grow is None
                    &&& (final(self).finished <==> final(self).pool.size == 0)
                })
            },
    {
        self.window.push(sample.round_trip_micros);
        if self.window.len() < self.flush_threshold {
            return None;
        }
        let stats = aggregate(&self.window, self.extended, self.filtered);
        let connection_count = self.fixed_overhead + self.pool.size;
        let row = ResultRow { connection_count, stats, version_label: self.version_label.clone() };
        self.window.clear();
        let action = match self.phase {
            ScalingPhase::Increasing => {
                let quota = self.pool.grow_quota(self.step);
                self.pending_grow = Some(quota);
                ScalingAction::Grow(quota)
            },
            ScalingPhase::Decreasing => {
                let removed = self.pool.shrink(self.step);
                if self.pool.size == 0 {
                    self.finished = true;
                }
                let conn = self.fixed_overhead + self.pool.size;
                self.flush_threshold = threshold_for(&self.policy, conn);
                ScalingAction::Shrink(removed)
            },
        };
        Some(FlushOutcome { row, action })
    }

    /// The shell reports how many of the granted connections actually came
    /// up; growth stopping short is not an error.  The phase flips to
    /// `Decreasing` exactly when the pool reaches its ceiling — evaluated
    /// here, at the flush boundary, and nowhere else.
    pub fn grown(&mut self, succeeded: usize)
        requires
            old(self).wf(),
            old(self).pending_grow matches Some(q) && succeeded <= q,
            old(self).window@.len() == 0,
        ensures
            final(self).wf(),
            final(self).policy == old(self).policy,
            final(self).step == old(self).step,
            final(self).fixed_overhead == old(self).fixed_overhead,
            final(self).extended == old(self).extended,
            final(self).filtered == old(self).filtered,
            final(self).pool.ceiling == old(self).pool.ceiling,
            final(self).version_label@ == old(self).version_label@,
            final(self).window@ == old(self).window@,
            final(self).pool.size == old(self).pool.size + succeeded,
            final(self).pending_grow is None,
            final(self).finished == old(self).finished,
            final(self).phase is Decreasing <==> final(self).pool.size == old(self).pool.ceiling,
    {
        self.pool.record_grown(succeeded);
        self.pending_grow = None;
        if self.pool.size == self.pool.ceiling {
            self.phase = ScalingPhase::Decreasing;
        }
        let conn = self.fixed_overhead + self.pool.size;
        self.flush_threshold = threshold_for(&self.policy, conn);
    }
}

/// The schedule of a discrete-levels run: every target pool size in order,
/// each repeated `reps` times.  Repetition `j` of level `i` is run number
/// `i * reps + j`.
pub struct DiscreteSchedule {
    pub levels: Vec<usize>,
    pub reps: usize,
    pub emitted: usize,
}

impl DiscreteSchedule {
    pub open spec fn total_runs(self) -> int {
        self.levels@.len() * self.reps
    }

    pub open spec fn wf(self) -> bool {
        &&& self.reps >= 1
        &&& self.levels@.len() * self.reps <= usize::MAX
        &&& self.emitted <= self.total_runs()
    }

    pub fn new(levels: Vec<usize>, reps: usize) -> (r: DiscreteSchedule)
        requires
            reps >= 1,
            levels@.len() * reps <= usize::MAX,
        ensures
            r.wf(),
            r.levels == levels,
            r.reps == reps,
            r.emitted == 0,
    {
        proof {
            assert(levels@.len() * reps >= 0) by (nonlinear_arith)
                requires reps >= 1;
        }
        DiscreteSchedule { levels, reps, emitted: 0 }
    }

    /// The next run to perform: its target pool size and which repetition
    /// of that level it is, or `None` when the schedule is exhausted.
    pub fn next_run(&mut self) -> (r: Option<(usize, usize)>)
        requires
            old(self).wf(),
        ensures
            final(self).wf(),
            final(self).levels == old(self).levels,
            final(self).reps == old(self).reps,
            old(self).emitted < old(self).total_runs() ==> {
                &&& r == Some((
                    old(self).levels@[old(self).emitted as int / old(self).reps as int],
                    (old(self).emitted as int % old(self).reps as int) as usize,
                ))
                &&& final(self).emitted == old(self).emitted + 1
            },
            old(self).emitted >= old(self).total_runs() ==> r is None && *final(self) == *old(self),
    {
        proof {
            assert(self.emitted < self.levels@.len() * self.reps ==> self.emitted < usize::MAX);
        }
        if self.emitted >= self.levels.len() * self.reps {
            proof {
                assert(self.levels@.len() * self.reps == self.total_runs());
            }
            return None;
        }
        let level_idx = self.emitted / self.reps;
        let rep = self.emitted % self.reps;
        proof {
            broadcast use vstd::arithmetic::div_mod::lemma_multiply_divide_lt;

            assert((self.emitted as int) < (self.reps as int) * (self.levels@.len() as int))
                by (nonlinear_arith)
                requires (self.emitted as int) < (self.levels@.len() as int) * (self.reps as int);
            assert((self.emitted as int) / (self.reps as int) < self.levels@.len());
        }
        let level = self.levels[level_idx];
        self.emitted = self.emitted + 1;
        Some((level, rep))
    }
}

/// Round-trip throughput in thousandths of a round trip per second:
/// `count` round trips over `elapsed_micros` microseconds.
pub fn throughput_milli_per_sec(count: u64, elapsed_micros: u64) -> (r: u128)
    requires
        elapsed_micros > 0,
    ensures
        r == (count as int) * 1_000_000_000 / (elapsed_micros as int),
{
    proof {
        assert((count as int) * 1_000_000_000 < 0x1_0000_0000_0000_0000_0000_0000_0000_0000)
            by (nonlinear_arith)
            requires count <= 0xffff_ffff_ffff_ffffu64;
    }
    (count as u128) * 1_000_000_000 / (elapsed_micros as u128)
}

} // verus!
