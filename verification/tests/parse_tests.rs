use procmon::parse::{
    parse_stat, parse_status, parse_u64_digits, parse_uptime_cs, split_lines, split_tokens,
    starts_with, trim_bytes,
};

#[test]
fn u64_digits_plain() {
    assert_eq!(parse_u64_digits(b"0"), Some(0));
    assert_eq!(parse_u64_digits(b"123"), Some(123));
    assert_eq!(parse_u64_digits(b"007"), Some(7));
}

#[test]
fn u64_digits_rejects_empty_and_nonnumeric() {
    assert_eq!(parse_u64_digits(b""), None);
    assert_eq!(parse_u64_digits(b"12a"), None);
    assert_eq!(parse_u64_digits(b"-5"), None);
    assert_eq!(parse_u64_digits(b" 5"), None);
}

#[test]
fn u64_digits_bounds() {
    assert_eq!(parse_u64_digits(b"18446744073709551615"), Some(u64::MAX));
    assert_eq!(parse_u64_digits(b"18446744073709551616"), None);
    assert_eq!(parse_u64_digits(b"99999999999999999999999"), None);
}

#[test]
fn tokens_split_on_any_whitespace() {
    let toks = split_tokens(b"  a\tbb \n ccc ");
    let views: Vec<&[u8]> = toks.iter().map(|t| t.as_slice()).collect();
    assert_eq!(views, vec![b"a" as &[u8], b"bb", b"ccc"]);
    assert_eq!(split_tokens(b"").len(), 0);
    assert_eq!(split_tokens(b" \t\n").len(), 0);
}

#[test]
fn lines_split_like_the_kernel_writes_them() {
    let ls = split_lines(b"a\nbb\n");
    let views: Vec<&[u8]> = ls.iter().map(|t| t.as_slice()).collect();
    assert_eq!(views, vec![b"a" as &[u8], b"bb"]);
    let ls2 = split_lines(b"a\nbb");
    assert_eq!(ls2.len(), 2);
    assert_eq!(ls2[1].as_slice(), b"bb");
    assert_eq!(split_lines(b"").len(), 0);
    let ls3 = split_lines(b"\n");
    assert_eq!(ls3.len(), 1);
    assert_eq!(ls3[0].as_slice(), b"");
}

#[test]
fn prefix_test() {
    assert!(starts_with(b"VmRSS:\t 12 kB", b"VmRSS:"));
    assert!(!starts_with(b"VmSwap: 0 kB", b"VmRSS:"));
    assert!(!starts_with(b"Vm", b"VmRSS:"));
}

fn stat_line(utime: &str, stime: &str) -> Vec<u8> {
    // field layout of a stat record: pid, comm, state, then numeric
    // fields; indices 13 and 14 are user- and kernel-mode ticks
    let fields = [
        "42",
        "(worker)",
        "S",
        "1",
        "42",
        "42",
        "0",
        "-1",
        "4194304",
        "100",
        "0",
        "10",
        "0",
        utime,
        stime,
        "0",
        "0",
        "20",
        "0",
        "3",
        "0",
        "12345",
    ];
    fields.join(" ").into_bytes()
}

#[test]
fn stat_sums_user_and_kernel_ticks() {
    assert_eq!(parse_stat(&stat_line("30", "20")), Some(50));
    assert_eq!(parse_stat(&stat_line("0", "0")), Some(0));
}

#[test]
fn stat_rejects_short_or_malformed_records() {
    assert_eq!(parse_stat(b"1 (x) S 0 0"), None);
    assert_eq!(parse_stat(&stat_line("3x", "20")), None);
    assert_eq!(parse_stat(&stat_line("30", "2x")), None);
    assert_eq!(parse_stat(b""), None);
}

#[test]
fn stat_rejects_overflowing_sum() {
    let max = format!("{}", u64::MAX);
    assert_eq!(parse_stat(&stat_line(&max, "1")), None);
    assert_eq!(parse_stat(&stat_line(&max, "0")), Some(u64::MAX));
}

fn status_record() -> Vec<u8> {
    b"Name:\tworker\nUid:\t1000\t1001\t1002\t1003\nVmRSS:\t  5932 kB\nThreads:\t7\n".to_vec()
}

#[test]
fn status_reads_rss_uid_threads() {
    let f = parse_status(&status_record()).expect("well-formed status record");
    assert_eq!(f.vm_rss, 5932);
    assert_eq!(f.uid, 1000);
    assert_eq!(f.threads, 7);
}

#[test]
fn status_missing_rss_is_unavailable() {
    // kernel threads have no resident-memory line at all
    let rec = b"Name:\tkthreadd\nUid:\t0\t0\t0\t0\nThreads:\t1\n";
    assert!(parse_status(rec).is_none());
}

#[test]
fn status_uid_beyond_u32_is_unavailable() {
    let rec = b"VmRSS:\t1 kB\nUid:\t4294967296\t0\t0\t0\nThreads:\t1\n";
    assert!(parse_status(rec).is_none());
}

#[test]
fn uptime_reads_first_token_as_centiseconds() {
    assert_eq!(parse_uptime_cs(b"12345.67 99.00\n"), Some(1234567));
    assert_eq!(parse_uptime_cs(b"5 8"), Some(500));
    assert_eq!(parse_uptime_cs(b"5."), Some(500));
    assert_eq!(parse_uptime_cs(b"5.7"), Some(570));
    assert_eq!(parse_uptime_cs(b"5.789"), Some(578));
    assert_eq!(parse_uptime_cs(b"0.00 0.00"), Some(0));
}

#[test]
fn uptime_rejects_malformed_records() {
    assert_eq!(parse_uptime_cs(b""), None);
    assert_eq!(parse_uptime_cs(b"abc 5"), None);
    assert_eq!(parse_uptime_cs(b"1.2.3"), None);
    assert_eq!(parse_uptime_cs(b".5"), None);
    assert_eq!(parse_uptime_cs(b"1.x"), None);
}

#[test]
fn trim_strips_both_ends() {
    assert_eq!(trim_bytes(b"  bash\n").as_slice(), b"bash");
    assert_eq!(trim_bytes(b"bash").as_slice(), b"bash");
    assert_eq!(trim_bytes(b" \t\n").as_slice(), b"");
    assert_eq!(trim_bytes(b"a b ").as_slice(), b"a b");
}
