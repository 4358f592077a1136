use procmon::sampler::{display_user_name, resolve_user_name, ProcEntry, Sampler};
use procmon::usage::SystemClock;

fn stat_with_ticks(utime: u64, stime: u64) -> Vec<u8> {
    format!(
        "42 (worker) S 1 42 42 0 -1 4194304 100 0 10 0 {} {} 0 0 20 0 3 0 12345",
        utime, stime
    )
    .into_bytes()
}

fn status_with(rss: u64, uid: u32, threads: u32) -> Vec<u8> {
    format!("Uid:\t{}\t{}\t{}\t{}\nVmRSS:\t{} kB\nThreads:\t{}\n", uid, uid, uid, uid, rss, threads)
        .into_bytes()
}

fn live_entry(pid: u64, comm: &str, ticks: u64, rss: u64) -> ProcEntry {
    ProcEntry {
        name: pid.to_string().into_bytes(),
        is_dir: true,
        comm: Some(comm.as_bytes().to_vec()),
        stat: Some(stat_with_ticks(ticks, 0)),
        status: Some(status_with(rss, 0, 2)),
    }
}

#[test]
fn snapshot_reports_each_live_process() {
    let mut s = Sampler::new(SystemClock::new(100));
    let entries = vec![live_entry(1, "init\n", 500, 1200), live_entry(2, "bash\n", 250, 800)];
    let recs = s.sample(500, &entries);
    assert_eq!(recs.len(), 2);
    assert_eq!(recs[0].process_id, 1);
    assert_eq!(recs[0].process_name.as_slice(), b"init");
    assert_eq!(recs[0].memory_usage, 1200);
    assert_eq!(recs[0].thread_count, 2);
    // 500 ticks at 100 Hz over 5 s: exactly one core
    assert_eq!(recs[0].cpu_usage.num, 50_000);
    assert_eq!(recs[0].cpu_usage.den, 50_000);
    assert_eq!(recs[1].process_id, 2);
    assert_eq!(recs[1].cpu_usage.num, 25_000);
}

#[test]
fn vanished_process_is_omitted_without_error() {
    // the stat read failed: the process exited between enumeration
    // and the detailed read
    let gone = ProcEntry {
        name: b"3".to_vec(),
        is_dir: true,
        comm: Some(b"ghost\n".to_vec()),
        stat: None,
        status: Some(status_with(100, 0, 1)),
    };
    let mut s = Sampler::new(SystemClock::new(100));
    let entries = vec![live_entry(1, "init\n", 10, 100), gone, live_entry(2, "bash\n", 10, 100)];
    let recs = s.sample(100, &entries);
    assert_eq!(recs.len(), 2);
    assert!(recs.iter().all(|r| r.process_id != 3));
    assert!(s.state.last_cpu_ticks.get(&3).is_none());
}

#[test]
fn non_numeric_and_non_directory_entries_are_skipped() {
    let not_numeric = ProcEntry {
        name: b"uptime".to_vec(),
        is_dir: true,
        comm: Some(b"x".to_vec()),
        stat: Some(stat_with_ticks(1, 1)),
        status: Some(status_with(1, 0, 1)),
    };
    let not_dir = ProcEntry { name: b"7".to_vec(), is_dir: false, ..live_entry(7, "x", 1, 1) };
    let malformed = ProcEntry {
        name: b"8".to_vec(),
        is_dir: true,
        comm: Some(b"x".to_vec()),
        stat: Some(b"8 (x) S 1".to_vec()),
        status: Some(status_with(1, 0, 1)),
    };
    let mut s = Sampler::new(SystemClock::new(100));
    let entries = vec![not_numeric, not_dir, malformed, live_entry(9, "ok\n", 1, 1)];
    let recs = s.sample(100, &entries);
    assert_eq!(recs.len(), 1);
    assert_eq!(recs[0].process_id, 9);
}

#[test]
fn duplicate_process_ids_yield_one_record() {
    let mut s = Sampler::new(SystemClock::new(100));
    let entries = vec![
        live_entry(5, "first\n", 100, 10),
        live_entry(5, "second\n", 999, 20),
        live_entry(6, "other\n", 100, 10),
    ];
    let recs = s.sample(100, &entries);
    assert_eq!(recs.len(), 2);
    let mut ids: Vec<u64> = recs.iter().map(|r| r.process_id).collect();
    ids.sort();
    ids.dedup();
    assert_eq!(ids, vec![5, 6]);
    // the first entry for an id wins
    assert_eq!(recs[0].process_name.as_slice(), b"first");
    assert_eq!(*s.state.last_cpu_ticks.get(&5).unwrap(), 100);
}

#[test]
fn state_holds_exactly_the_observed_cycle() {
    let mut s = Sampler::new(SystemClock::new(100));
    let first = vec![live_entry(1, "a\n", 100, 10), live_entry(2, "b\n", 50, 10)];
    s.sample(100, &first);
    assert_eq!(s.state.last_uptime_cs, 100);
    assert_eq!(s.state.last_cpu_ticks.len(), 2);
    assert_eq!(*s.state.last_cpu_ticks.get(&1).unwrap(), 100);

    // next cycle: process 1 exited, process 4 appeared
    let second = vec![live_entry(2, "b\n", 150, 10), live_entry(4, "d\n", 30, 10)];
    let recs = s.sample(200, &second);
    assert_eq!(s.state.last_uptime_cs, 200);
    assert_eq!(s.state.last_cpu_ticks.len(), 2);
    assert!(s.state.last_cpu_ticks.get(&1).is_none());
    assert_eq!(*s.state.last_cpu_ticks.get(&2).unwrap(), 150);
    assert_eq!(*s.state.last_cpu_ticks.get(&4).unwrap(), 30);

    // process 2 advanced 100 ticks over 1 s at 100 Hz: one core
    let r2 = recs.iter().find(|r| r.process_id == 2).unwrap();
    assert_eq!(r2.cpu_usage.num, 10_000);
    assert_eq!(r2.cpu_usage.den, 10_000);
    // process 4 is a cold start: its whole 30 ticks count
    let r4 = recs.iter().find(|r| r.process_id == 4).unwrap();
    assert_eq!(r4.cpu_usage.num, 3_000);
    assert_eq!(r4.cpu_usage.den, 10_000);
}

#[test]
fn owner_zero_resolves_to_the_superuser_name() {
    let mut s = Sampler::new(SystemClock::new(100));
    let entries = vec![live_entry(1, "init\n", 1, 1)];
    let recs = s.sample(100, &entries);
    assert_eq!(recs[0].user_name, "root");
}

#[test]
fn unresolvable_owner_degrades_to_an_empty_name() {
    assert_eq!(resolve_user_name(0), "root");
    // no user directory entry carries this id
    assert_eq!(resolve_user_name(u32::MAX - 7), "");
}

#[test]
fn display_name_keeps_a_present_answer_and_empties_an_absent_one() {
    assert_eq!(display_user_name(Some("alice".to_string())), "alice");
    assert_eq!(display_user_name(None), "");
}

#[test]
fn unreadable_uptime_skips_the_cycle_and_keeps_the_state() {
    let mut s = Sampler::new(SystemClock::new(100));
    let first = vec![live_entry(1, "a\n", 100, 10)];
    s.sample_cycle(Some(100), &first);
    assert_eq!(s.state.last_uptime_cs, 100);
    assert_eq!(*s.state.last_cpu_ticks.get(&1).unwrap(), 100);

    // the uptime record could not be parsed: nothing reported,
    // nothing replaced
    let second = vec![live_entry(1, "a\n", 150, 10), live_entry(2, "b\n", 50, 10)];
    let recs = s.sample_cycle(None, &second);
    assert!(recs.is_empty());
    assert_eq!(s.state.last_uptime_cs, 100);
    assert_eq!(s.state.last_cpu_ticks.len(), 1);
    assert_eq!(*s.state.last_cpu_ticks.get(&1).unwrap(), 100);

    // the next readable cycle diffs against the kept state
    let recs = s.sample_cycle(Some(200), &second);
    let r1 = recs.iter().find(|r| r.process_id == 1).unwrap();
    assert_eq!(r1.cpu_usage.num, 5_000);
    assert_eq!(r1.cpu_usage.den, 10_000);
}

#[test]
fn empty_enumeration_gives_an_empty_snapshot() {
    let mut s = Sampler::new(SystemClock::new(100));
    let recs = s.sample(100, &Vec::new());
    assert!(recs.is_empty());
    assert_eq!(s.state.last_cpu_ticks.len(), 0);
    assert_eq!(s.state.last_uptime_cs, 100);
}
