use procmon::control::{
    bind_to_cpu, parse_signal_code, send_signal, single_cpu_mask, ControlError,
};

fn own_pid() -> i32 {
    nix::unistd::getpid().as_raw()
}

#[test]
fn signal_names_map_to_their_numbers() {
    let table: [(&[u8], i32); 31] = [
        (b"HUP", 1),
        (b"INT", 2),
        (b"QUIT", 3),
        (b"ILL", 4),
        (b"TRAP", 5),
        (b"ABRT", 6),
        (b"BUS", 7),
        (b"FPE", 8),
        (b"KILL", 9),
        (b"USR1", 10),
        (b"SEGV", 11),
        (b"USR2", 12),
        (b"PIPE", 13),
        (b"ALRM", 14),
        (b"TERM", 15),
        (b"STKFLT", 16),
        (b"CHLD", 17),
        (b"CONT", 18),
        (b"STOP", 19),
        (b"TSTP", 20),
        (b"TTIN", 21),
        (b"TTOU", 22),
        (b"URG", 23),
        (b"XCPU", 24),
        (b"XFSZ", 25),
        (b"VTALRM", 26),
        (b"PROF", 27),
        (b"WINCH", 28),
        (b"IO", 29),
        (b"PWR", 30),
        (b"SYS", 31),
    ];
    for (name, num) in table {
        assert_eq!(parse_signal_code(name), Some(num), "bare name");
        let mut prefixed = b"SIG".to_vec();
        prefixed.extend_from_slice(name);
        assert_eq!(parse_signal_code(&prefixed), Some(num), "prefixed name");
    }
}

#[test]
fn sig_prefix_is_accepted() {
    assert_eq!(parse_signal_code(b"SIGKILL"), Some(9));
    assert_eq!(parse_signal_code(b"SIGTERM"), Some(15));
    assert_eq!(parse_signal_code(b"SIG"), None);
}

#[test]
fn numeric_signals_are_accepted_up_to_thirty_one() {
    assert_eq!(parse_signal_code(b"0"), Some(0));
    assert_eq!(parse_signal_code(b"9"), Some(9));
    assert_eq!(parse_signal_code(b"31"), Some(31));
    // the realtime range cannot be carried by the delivery interface
    assert_eq!(parse_signal_code(b"32"), None);
    assert_eq!(parse_signal_code(b"64"), None);
}

#[test]
fn unknown_names_denote_nothing() {
    assert_eq!(parse_signal_code(b""), None);
    assert_eq!(parse_signal_code(b"BOGUS"), None);
    assert_eq!(parse_signal_code(b"kill"), None);
    assert_eq!(parse_signal_code(b"-9"), None);
}

#[test]
fn probing_the_own_process_succeeds() {
    // signal zero: existence check, nothing delivered
    assert_eq!(send_signal(own_pid(), b"0"), Ok(()));
}

#[test]
fn continuing_the_own_process_succeeds() {
    assert_eq!(send_signal(own_pid(), b"SIGCONT"), Ok(()));
}

#[test]
fn signalling_a_nonexistent_process_is_a_reported_failure() {
    // far beyond the kernel's highest process id
    let r = send_signal(i32::MAX, b"TERM");
    assert_eq!(r, Err(ControlError::OperationRefused));
    assert_ne!(r, Ok(()));
}

#[test]
fn unknown_signal_is_distinguishable_from_refusal() {
    let r = send_signal(own_pid(), b"BOGUS");
    assert_eq!(r, Err(ControlError::UnknownSignal));
    assert_ne!(r, Err(ControlError::OperationRefused));
}

#[test]
fn binding_to_the_first_cpu_succeeds() {
    assert!(bind_to_cpu(own_pid(), 0));
}

#[test]
fn one_cpu_mask_exists_exactly_below_the_mask_width() {
    assert!(single_cpu_mask(0).is_some());
    assert!(single_cpu_mask(1023).is_some());
    assert!(single_cpu_mask(1024).is_none());
    assert!(single_cpu_mask(u32::MAX).is_none());
}

#[test]
fn binding_beyond_the_machine_is_a_reported_failure() {
    assert!(!bind_to_cpu(own_pid(), 100_000));
    assert!(!bind_to_cpu(own_pid(), 1024));
}

#[test]
fn binding_a_nonexistent_process_is_a_reported_failure() {
    assert!(!bind_to_cpu(i32::MAX, 0));
}
