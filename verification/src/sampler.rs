//! One sampling cycle over the process table: parse every candidate
//! entry, compute its instantaneous CPU usage against the previous
//! cycle, and atomically replace the carried state with exactly the
//! process ids observed this cycle.

use vstd::prelude::*;
use std::collections::HashMap;
use crate::parse;
use crate::usage;
use crate::usage::{SystemClock, TemporalState, TemporalView, UsageFraction};
use crate::osapi;

verus! {

broadcast use vstd::std_specs::hash::group_hash_axioms;

/// What enumeration of the observation root hands the sampler for one
/// directory entry: the entry's name, whether it is a directory, and
/// the raw bytes of the three per-process records, each `None` where
/// the read failed because the process vanished, access was denied,
/// or the entry is no process at all.
pub struct ProcEntry {
    pub name: Vec<u8>,
    pub is_dir: bool,
    pub comm: Option<Vec<u8>>,
    pub stat: Option<Vec<u8>>,
    pub status: Option<Vec<u8>>,
}

/// Mathematical content of a `ProcEntry`.
pub struct ProcEntryView {
    pub name: Seq<u8>,
    pub is_dir: bool,
    pub comm: Option<Seq<u8>>,
    pub stat: Option<Seq<u8>>,
    pub status: Option<Seq<u8>>,
}

impl View for ProcEntry {
    type V = ProcEntryView;

    open spec fn view(&self) -> ProcEntryView {
        ProcEntryView {
            name: self.name@,
            is_dir: self.is_dir,
            comm: match self.comm {
                Option::Some(c) => Some(c@),
                Option::None => None,
            },
            stat: match self.stat {
                Option::Some(c) => Some(c@),
                Option::None => None,
            },
            status: match self.status {
                Option::Some(c) => Some(c@),
                Option::None => None,
            },
        }
    }
}

/// The views of a sequence of entries.
pub open spec fn entry_views(es: Seq<ProcEntry>) -> Seq<ProcEntryView> {
    es.map_values(|e: ProcEntry| e@)
}

/// An entry denotes a live, readable process: it is a directory whose
/// name is entirely numeric, all three records were read, and both
/// records parse.
pub open spec fn entry_ok(e: ProcEntryView) -> bool {
    &&& e.is_dir
    &&& parse::u64_from_token(e.name) is Some
    &&& e.comm is Some
    &&& e.stat is Some
    &&& parse::stat_ticks(e.stat.unwrap()) is Some
    &&& e.status is Some
    &&& parse::status_fields(e.status.unwrap()) is Some
}

/// Everything one valid entry says about its process.
pub struct EntryFacts {
    pub pid: u64,
    pub ticks: u64,
    pub rss: u64,
    pub uid: u32,
    pub threads: u32,
    pub name: Seq<u8>,
}

/// The facts of a valid entry.
pub open spec fn entry_facts(e: ProcEntryView) -> EntryFacts
    recommends
        entry_ok(e),
{
    EntryFacts {
        pid: parse::u64_from_token(e.name).unwrap(),
        ticks: parse::stat_ticks(e.stat.unwrap()).unwrap(),
        rss: parse::status_fields(e.status.unwrap()).unwrap().vm_rss,
        uid: parse::status_fields(e.status.unwrap()).unwrap().uid,
        threads: parse::status_fields(e.status.unwrap()).unwrap().threads,
        name: parse::trim_spec(e.comm.unwrap()),
    }
}

/// One row of a snapshot.
pub struct ProcessRecord {
    pub process_id: u64,
    /// The command name, trimmed.
    pub process_name: Vec<u8>,
    /// Instantaneous CPU usage as an exact fraction of one core.
    pub cpu_usage: UsageFraction,
    /// Resident memory in kibibytes.
    pub memory_usage: u64,
    /// The owner's resolved user name; empty when the owner id has no
    /// directory entry.
    pub user_name: String,
    pub thread_count: u32,
}

/// The record reports exactly what the entry's facts and the usage
/// calculator say (the user name is whatever the directory lookup
/// answered and is not constrained here).
pub open spec fn record_matches(
    rec: ProcessRecord,
    f: EntryFacts,
    uptime_cs: u64,
    tps: u64,
    prior: TemporalView,
) -> bool {
    &&& rec.process_id == f.pid
    &&& rec.process_name@ == f.name
    &&& rec.cpu_usage == usage::usage_spec(f.pid, f.ticks, uptime_cs, tps, prior)
    &&& rec.memory_usage == f.rss
    &&& rec.thread_count == f.threads
}

/// The record is justified by the entry at position `i`, and the new
/// state maps its process id to the ticks observed there.
pub open spec fn record_at(
    es: Seq<ProcEntryView>,
    i: int,
    rec: ProcessRecord,
    m: Map<u64, u64>,
    uptime_cs: u64,
    tps: u64,
    prior: TemporalView,
) -> bool {
    &&& entry_ok(es[i])
    &&& record_matches(rec, entry_facts(es[i]), uptime_cs, tps, prior)
    &&& m.dom().contains(entry_facts(es[i]).pid)
    &&& m[entry_facts(es[i]).pid] == entry_facts(es[i]).ticks
}

/// The record is justified by one of the first `n` entries.
pub open spec fn record_within(
    es: Seq<ProcEntryView>,
    n: int,
    rec: ProcessRecord,
    m: Map<u64, u64>,
    uptime_cs: u64,
    tps: u64,
    prior: TemporalView,
) -> bool {
    exists|i: int| 0 <= i < n && #[trigger] record_at(es, i, rec, m, uptime_cs, tps, prior)
}

/// Graceful-omission law: a process id that no valid entry carries —
/// for instance one whose records could no longer be read because the
/// process exited between enumeration and the detailed read — is
/// never the id of a snapshot record.
pub proof fn lemma_omitted_id_never_reported(
    es: Seq<ProcEntryView>,
    n: int,
    rec: ProcessRecord,
    m: Map<u64, u64>,
    uptime_cs: u64,
    tps: u64,
    prior: TemporalView,
    p: u64,
)
    requires
        record_within(es, n, rec, m, uptime_cs, tps, prior),
        forall|i: int| 0 <= i < n && entry_ok(#[trigger] es[i]) ==> entry_facts(es[i]).pid != p,
    ensures
        rec.process_id != p,
{
    let i = choose|i: int| 0 <= i < n && #[trigger] record_at(es, i, rec, m, uptime_cs, tps, prior);
    assert(entry_ok(es[i]));
}

/// The display name a directory lookup's answer degrades to: a
/// present name is kept as it is; an absent one — no entry, or a
/// failing lookup — becomes the empty string, a normal, displayable
/// outcome, not an error.
pub fn display_user_name(looked_up: Option<String>) -> (r: String)
    ensures
        looked_up matches Some(n) ==> r == n,
        looked_up is None ==> r@ == Seq::<char>::empty(),
{
    match looked_up {
        Some(n) => n,
        None => String::new(),
    }
}

/// Resolve an owner id to its user name in the system's user
/// directory. The answer is machine state; only the degradation to
/// the empty string — stated by `display_user_name` — can be
/// promised.
pub fn resolve_user_name(uid: u32) -> (r: String) {
    display_user_name(osapi::lookup_user_raw(uid))
}

/// The sampling engine: a clock resolved at startup plus the state
/// carried between cycles. A cycle reads and then replaces that state,
/// so `sample` takes the sampler exclusively; callers wanting
/// concurrent use must serialize cycles behind a lock.
pub struct Sampler {
    pub clock: SystemClock,
    pub state: TemporalState,
}

impl Sampler {
    pub open spec fn wf(self) -> bool {
        self.clock.wf()
    }

    /// A sampler starting from the empty baseline.
    pub fn new(clock: SystemClock) -> (s: Self)
        requires
            clock.wf(),
        ensures
            s.wf(),
            s.clock == clock,
            s.state@.uptime_cs == 0,
            s.state@.ticks == Map::<u64, u64>::empty(),
    {
        Sampler { clock, state: TemporalState::new() }
    }

    /// Run one sampling cycle over the enumerated entries, against the
    /// uptime read once at the cycle's start.
    ///
    /// The snapshot holds one record per valid entry (first entry per
    /// process id, and entries that vanished or failed to parse are
    /// omitted, never an error), with no duplicate process ids. The
    /// carried state is replaced by exactly the observed processes.
    pub fn sample(&mut self, uptime_cs: u64, entries: &Vec<ProcEntry>) -> (r: Vec<ProcessRecord>)
        requires
            old(self).wf(),
        ensures
            final(self).wf(),
            final(self).clock == old(self).clock,
            final(self).state@.uptime_cs == uptime_cs,
            // no duplicate process ids in one snapshot
            forall|i: int, j: int|
                0 <= i < j < r@.len() ==> r@[i].process_id != r@[j].process_id,
            // every record is justified by some entry, and the new state
            // records that entry's ticks
            forall|k: int|
                0 <= k < r@.len() ==> record_within(
                    entry_views(entries@),
                    entries@.len() as int,
                    #[trigger] r@[k],
                    final(self).state@.ticks,
                    uptime_cs,
                    old(self).clock.ticks_per_second,
                    old(self).state@,
                ),
            // the new state holds exactly the process ids of the snapshot
            forall|pid: u64|
                #[trigger] final(self).state@.ticks.dom().contains(pid) <==> exists|k: int|
                    0 <= k < r@.len() && #[trigger] r@[k].process_id == pid,
            // every valid entry is represented
            forall|i: int|
                0 <= i < entries@.len() && entry_ok(#[trigger] entry_views(entries@)[i])
                    ==> final(self).state@.ticks.dom().contains(
                    entry_facts(entry_views(entries@)[i]).pid,
                ),
    {
        let ghost prior = self.state@;
        let ghost ev = entry_views(entries@);
        let tps = self.clock.ticks_per_second;
        let mut recs: Vec<ProcessRecord> = Vec::new();
        let mut newmap: HashMap<u64, u64> = HashMap::new();
        let mut idx: usize = 0;
        while idx < entries.len()
            invariant
                0 <= idx <= entries@.len(),
                ev == entry_views(entries@),
                self.wf(),
                self.clock.ticks_per_second == tps,
                self.state@ == prior,
                forall|i: int, j: int|
                    0 <= i < j < recs@.len() ==> recs@[i].process_id != recs@[j].process_id,
                forall|k: int|
                    0 <= k < recs@.len() ==> record_within(
                        ev,
                        idx as int,
                        #[trigger] recs@[k],
                        newmap@,
                        uptime_cs,
                        tps,
                        prior,
                    ),
                forall|pid: u64|
                    #[trigger] newmap@.dom().contains(pid) <==> exists|k: int|
                        0 <= k < recs@.len() && #[trigger] recs@[k].process_id == pid,
                forall|i: int|
                    0 <= i < idx && entry_ok(#[trigger] ev[i]) ==> newmap@.dom().contains(
                        entry_facts(ev[i]).pid,
                    ),
            decreases entries@.len() - idx,
        {
            let e = &entries[idx];
            proof {
                assert(ev[idx as int] == e@);
            }
            if e.is_dir {
                if let Some(pid) = parse::parse_u64_digits(e.name.as_slice()) {
                    if let Some(comm) = &e.comm {
                        if let Some(stat) = &e.stat {
                            if let Some(status) = &e.status {
                                if let Some(ticks) = parse::parse_stat(stat.as_slice()) {
                                    if let Some(fields) = parse::parse_status(status.as_slice()) {
                                        proof {
                                            assert(entry_ok(ev[idx as int]));
                                            assert(entry_facts(ev[idx as int]).pid == pid);
                                        }
                                        if !newmap.contains_key(&pid) {
                                            let frac = usage::instant_usage(
                                                pid,
                                                ticks,
                                                uptime_cs,
                                                &self.clock,
                                                &self.state,
                                            );
                                            let user_name = resolve_user_name(fields.uid);
                                            let process_name = parse::trim_bytes(comm.as_slice());
                                            let rec = ProcessRecord {
                                                process_id: pid,
                                                process_name,
                                                cpu_usage: frac,
                                                memory_usage: fields.vm_rss,
                                                user_name,
                                                thread_count: fields.threads,
                                            };
                                            let ghost old_recs = recs@;
                                            let ghost old_map = newmap@;
                                            recs.push(rec);
                                            newmap.insert(pid, ticks);
                                            proof {
                                                let f = entry_facts(ev[idx as int]);
                                                assert(record_matches(
                                                    rec,
                                                    f,
                                                    uptime_cs,
                                                    tps,
                                                    prior,
                                                ));
                                                assert(record_at(
                                                    ev,
                                                    idx as int,
                                                    rec,
                                                    newmap@,
                                                    uptime_cs,
                                                    tps,
                                                    prior,
                                                ));
                                                // the snapshot and the map still
                                                // agree on process ids
                                                assert forall|p: u64|
                                                    #[trigger] newmap@.dom().contains(p)
                                                        <==> exists|k: int|
                                                        0 <= k < recs@.len()
                                                            && #[trigger] recs@[k].process_id
                                                            == p by {
                                                    if newmap@.dom().contains(p) {
                                                        if p == pid {
                                                            assert(recs@[old_recs.len() as int].process_id
                                                                == p);
                                                        } else {
                                                            assert(old_map.dom().contains(p));
                                                            let k = choose|k: int|
                                                                0 <= k < old_recs.len()
                                                                    && #[trigger] old_recs[k].process_id
                                                                    == p;
                                                            assert(recs@[k].process_id == p);
                                                        }
                                                    }
                                                    if exists|k: int|
                                                        0 <= k < recs@.len()
                                                            && #[trigger] recs@[k].process_id
                                                            == p {
                                                        let k = choose|k: int|
                                                            0 <= k < recs@.len()
                                                                && #[trigger] recs@[k].process_id
                                                                == p;
                                                        if k < old_recs.len() {
                                                            assert(old_recs[k].process_id == p);
                                                        } else {
                                                            assert(p == pid);
                                                        }
                                                    }
                                                }
                                                // older records keep their
                                                // justification: their ids differ
                                                // from the inserted one
                                                assert forall|k: int|
                                                    0 <= k < recs@.len() implies record_within(
                                                    ev,
                                                    idx + 1,
                                                    #[trigger] recs@[k],
                                                    newmap@,
                                                    uptime_cs,
                                                    tps,
                                                    prior,
                                                ) by {
                                                    if k < old_recs.len() {
                                                        let i = choose|i: int|
                                                            0 <= i < idx && #[trigger] record_at(
                                                                ev,
                                                                i,
                                                                old_recs[k],
                                                                old_map,
                                                                uptime_cs,
                                                                tps,
                                                                prior,
                                                            );
                                                        assert(old_recs[k].process_id != pid);
                                                        assert(entry_facts(ev[i]).pid != pid);
                                                        assert(record_at(
                                                            ev,
                                                            i,
                                                            recs@[k],
                                                            newmap@,
                                                            uptime_cs,
                                                            tps,
                                                            prior,
                                                        ));
                                                    } else {
                                                        assert(record_at(
                                                            ev,
                                                            idx as int,
                                                            recs@[k],
                                                            newmap@,
                                                            uptime_cs,
                                                            tps,
                                                            prior,
                                                        ));
                                                    }
                                                }
                                            }
                                        }
                                    }
                                }
                            }
                        }
                    }
                }
            }
            idx = idx + 1;
        }
        self.state = TemporalState { last_uptime_cs: uptime_cs, last_cpu_ticks: newmap };
        recs
    }

    /// Run one cycle against an uptime reading that may have failed:
    /// a missing value skips the cycle entirely, reporting no
    /// processes and leaving the carried state exactly as it was, so
    /// that the state still reflects the last completed cycle. A
    /// present value runs `sample`, whose contract carries over.
    pub fn sample_cycle(&mut self, uptime_cs: Option<u64>, entries: &Vec<ProcEntry>) -> (r: Vec<
        ProcessRecord,
    >)
        requires
            old(self).wf(),
        ensures
            final(self).wf(),
            final(self).clock == old(self).clock,
            uptime_cs is None ==> final(self).state@ == old(self).state@ && r@.len() == 0,
            uptime_cs matches Some(u) ==> {
                &&& final(self).state@.uptime_cs == u
                &&& forall|i: int, j: int|
                    0 <= i < j < r@.len() ==> r@[i].process_id != r@[j].process_id
                &&& forall|k: int|
                    0 <= k < r@.len() ==> record_within(
                        entry_views(entries@),
                        entries@.len() as int,
                        #[trigger] r@[k],
                        final(self).state@.ticks,
                        u,
                        old(self).clock.ticks_per_second,
                        old(self).state@,
                    )
                &&& forall|pid: u64|
                    #[trigger] final(self).state@.ticks.dom().contains(pid) <==> exists|k: int|
                        0 <= k < r@.len() && #[trigger] r@[k].process_id == pid
                &&& forall|i: int|
                    0 <= i < entries@.len() && entry_ok(#[trigger] entry_views(entries@)[i])
                        ==> final(self).state@.ticks.dom().contains(
                        entry_facts(entry_views(entries@)[i]).pid,
                    )
            },
    {
        match uptime_cs {
            Some(u) => self.sample(u, entries),
            None => Vec::new(),
        }
    }
}

} // verus!
