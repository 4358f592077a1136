//! Delta-based CPU usage: two time-separated cumulative tick readings
//! plus the elapsed wall-clock time give an instantaneous usage
//! fraction of one core's capacity.

use vstd::prelude::*;
use std::collections::HashMap;
use crate::osapi;

verus! {

broadcast use vstd::std_specs::hash::group_hash_axioms;

/// The tick resolution of the kernel's CPU-time counters, resolved
/// once at startup.
pub struct SystemClock {
    /// Clock ticks per second; always at least one.
    pub ticks_per_second: u64,
}

/// Fallback tick rate when the system refuses to report one.
pub const DEFAULT_TICKS_PER_SECOND: u64 = 100;

impl SystemClock {
    pub open spec fn wf(self) -> bool {
        self.ticks_per_second >= 1
    }

    /// A clock with a known tick rate.
    pub fn new(ticks_per_second: u64) -> (c: Self)
        requires
            ticks_per_second >= 1,
        ensures
            c.wf(),
            c.ticks_per_second == ticks_per_second,
    {
        SystemClock { ticks_per_second }
    }

    /// The clock a raw tick-rate report resolves to: the reported
    /// rate itself whenever it is positive; the customary default
    /// when the query failed or reported a value no clock can have.
    pub open spec fn of_report(report: Option<i64>) -> u64 {
        match report {
            Option::Some(v) => if v >= 1 {
                v as u64
            } else {
                DEFAULT_TICKS_PER_SECOND
            },
            Option::None => DEFAULT_TICKS_PER_SECOND,
        }
    }

    /// Resolve a raw tick-rate report into a clock.
    pub fn from_report(report: Option<i64>) -> (c: Self)
        ensures
            c.wf(),
            c.ticks_per_second == Self::of_report(report),
    {
        match report {
            Some(v) => if v >= 1 {
                SystemClock { ticks_per_second: v as u64 }
            } else {
                SystemClock { ticks_per_second: DEFAULT_TICKS_PER_SECOND }
            },
            None => SystemClock { ticks_per_second: DEFAULT_TICKS_PER_SECOND },
        }
    }

    /// Resolve the tick rate from the running system. The report is
    /// machine state, so only the mapping from report to clock —
    /// stated by `from_report` — can be promised here.
    pub fn from_system() -> (c: Self)
        ensures
            c.wf(),
    {
        SystemClock::from_report(osapi::clock_ticks_raw())
    }
}

/// The one piece of state carried between sampling cycles: the wall
/// clock of the previous cycle and each process's cumulative tick
/// count as observed then.
pub struct TemporalState {
    /// Uptime at the previous cycle, in centiseconds.
    pub last_uptime_cs: u64,
    /// Cumulative CPU ticks per process id at the previous cycle.
    pub last_cpu_ticks: HashMap<u64, u64>,
}

/// Mathematical content of a `TemporalState`.
pub struct TemporalView {
    pub uptime_cs: u64,
    pub ticks: Map<u64, u64>,
}

impl View for TemporalState {
    type V = TemporalView;

    open spec fn view(&self) -> TemporalView {
        TemporalView { uptime_cs: self.last_uptime_cs, ticks: self.last_cpu_ticks@ }
    }
}

impl TemporalState {
    /// The empty baseline of a first cycle.
    pub fn new() -> (s: Self)
        ensures
            s@.uptime_cs == 0,
            s@.ticks == Map::<u64, u64>::empty(),
    {
        TemporalState { last_uptime_cs: 0, last_cpu_ticks: HashMap::new() }
    }
}

/// An exact usage fraction: `num / den` of one core's capacity. Kept
/// as a ratio so that no precision is lost; it may exceed one for a
/// multi-threaded process.
#[derive(Clone, Copy, PartialEq, Eq, Structural, Debug)]
pub struct UsageFraction {
    pub num: u128,
    pub den: u128,
}

/// The baseline tick count for a process: what the previous cycle
/// recorded, or zero on first observation.
pub open spec fn prior_ticks_of(m: Map<u64, u64>, pid: u64) -> u64 {
    if m.dom().contains(pid) {
        m[pid]
    } else {
        0
    }
}

/// The instantaneous usage fraction. With `elapsed` the wall-clock
/// centiseconds since the previous cycle, the fraction is
/// `delta_ticks / ticks_per_second / (elapsed / 100)`; a clock that
/// did not advance (or went backward) clamps the result to zero, as
/// does a tick counter below its recorded baseline (a recycled
/// process id).
pub open spec fn usage_spec(
    pid: u64,
    cpu_ticks: u64,
    uptime_cs: u64,
    tps: u64,
    prior: TemporalView,
) -> UsageFraction {
    if uptime_cs <= prior.uptime_cs {
        UsageFraction { num: 0, den: 1 }
    } else {
        let p = prior_ticks_of(prior.ticks, pid);
        let delta: u64 = if cpu_ticks >= p {
            (cpu_ticks - p) as u64
        } else {
            0u64
        };
        UsageFraction {
            num: (delta * 100) as u128,
            den: (tps * (uptime_cs - prior.uptime_cs)) as u128,
        }
    }
}

/// Compute the instantaneous CPU usage of one process from its
/// current cumulative tick count, the current uptime and the previous
/// cycle's state. A pure function of its inputs.
pub fn instant_usage(
    pid: u64,
    cpu_ticks: u64,
    uptime_cs: u64,
    clock: &SystemClock,
    prior: &TemporalState,
) -> (r: UsageFraction)
    requires
        clock.wf(),
    ensures
        r == usage_spec(pid, cpu_ticks, uptime_cs, clock.ticks_per_second, prior@),
        r.den >= 1,
{
    if uptime_cs <= prior.last_uptime_cs {
        return UsageFraction { num: 0, den: 1 };
    }
    let p: u64 = match prior.last_cpu_ticks.get(&pid) {
        Some(v) => *v,
        None => 0,
    };
    let delta: u64 = if cpu_ticks >= p {
        cpu_ticks - p
    } else {
        0
    };
    let elapsed: u64 = uptime_cs - prior.last_uptime_cs;
    proof {
        assert(1 <= (clock.ticks_per_second as int) * (elapsed as int) <= u128::MAX)
            by (nonlinear_arith)
            requires
                1 <= clock.ticks_per_second <= u64::MAX,
                1 <= elapsed <= u64::MAX,
        ;
    }
    let den: u128 = clock.ticks_per_second as u128 * elapsed as u128;
    UsageFraction { num: delta as u128 * 100, den }
}

/// Cold-start law: for a process id absent from the prior mapping the
/// baseline is zero, so the fraction charges the process's whole
/// accumulated CPU time to this one interval.
pub proof fn lemma_cold_start(
    pid: u64,
    cpu_ticks: u64,
    uptime_cs: u64,
    tps: u64,
    prior: TemporalView,
)
    requires
        !prior.ticks.dom().contains(pid),
        uptime_cs > prior.uptime_cs,
    ensures
        usage_spec(pid, cpu_ticks, uptime_cs, tps, prior) == (UsageFraction {
            num: (cpu_ticks * 100) as u128,
            den: (tps * (uptime_cs - prior.uptime_cs)) as u128,
        }),
{
}

/// Clock-anomaly law: whenever the wall clock did not advance, the
/// fraction is exactly zero — never negative, never undefined.
pub proof fn lemma_no_elapsed_is_zero(
    pid: u64,
    cpu_ticks: u64,
    uptime_cs: u64,
    tps: u64,
    prior: TemporalView,
)
    requires
        uptime_cs <= prior.uptime_cs,
    ensures
        usage_spec(pid, cpu_ticks, uptime_cs, tps, prior).num == 0,
        usage_spec(pid, cpu_ticks, uptime_cs, tps, prior).den == 1,
{
}

} // verus!
