//! The crate's trusted boundary: declarations of the outside types it
//! carries and the wrappers through which verified code reaches the
//! operating system. Each wrapper makes exactly one outside call; its
//! contract states no more than that call's source shows for every
//! outcome.

use vstd::prelude::*;

verus! {

/// A POSIX signal, as the `nix` crate enumerates them.
#[verifier::external_type_specification]
#[verifier::external_body]
pub struct ExSignal(nix::sys::signal::Signal);

/// An `errno` value, as the `nix` crate carries failures.
#[verifier::external_type_specification]
#[verifier::external_body]
pub struct ExErrno(nix::errno::Errno);

/// A CPU affinity mask.
#[verifier::external_type_specification]
#[verifier::external_body]
pub struct ExCpuSet(nix::sched::CpuSet);

/// Relies on nix::unistd::sysconf with the clock-tick variable: the
/// kernel's tick rate, or nothing when the system does not report
/// one. The value is machine state, so nothing is promised of it.
#[verifier::external_body]
pub fn clock_ticks_raw() -> (r: Option<i64>) {
    match nix::unistd::sysconf(nix::unistd::SysconfVar::CLK_TCK) {
        Ok(Some(v)) => Some(v as i64),
        Ok(None) => None,
        Err(_) => None,
    }
}

/// Relies on nix::unistd::User::from_uid: the user-directory entry of
/// an owner id, if one exists. The answer depends on the machine's
/// user directory, so nothing is promised of it.
#[verifier::external_body]
pub fn lookup_user_raw(uid: u32) -> (r: Option<String>) {
    match nix::unistd::User::from_uid(nix::unistd::Uid::from_raw(uid)) {
        Ok(Some(u)) => Some(u.name),
        Ok(None) => None,
        Err(_) => None,
    }
}

/// Relies on nix::sys::signal::Signal::try_from: a pure match of the
/// number against the platform's signal constants, which on the Linux
/// targets this crate builds for are exactly the numbers one through
/// thirty-one.
#[verifier::external_body]
pub fn signal_of_number(n: i32) -> (r: Option<nix::sys::signal::Signal>)
    ensures
        r is Some <==> 1 <= n <= 31,
{
    match nix::sys::signal::Signal::try_from(n) {
        Ok(s) => Some(s),
        Err(_) => None,
    }
}

/// Relies on nix::sys::signal::kill: delivers the signal to the
/// process (or probes for its existence when no signal is given).
/// Success depends on the live process table and on privilege, so the
/// contract promises nothing of the outcome.
#[verifier::external_body]
pub fn kill_raw(pid: i32, signal: Option<nix::sys::signal::Signal>) -> (r: Result<
    (),
    nix::errno::Errno,
>) {
    nix::sys::signal::kill(nix::unistd::Pid::from_raw(pid), signal)
}

/// The CPU indices an affinity mask holds.
pub uninterp spec fn cpus_of(s: nix::sched::CpuSet) -> Set<u64>;

/// Relies on nix::sched::CpuSet::new: an affinity mask with no CPU in
/// it (the underlying storage is zeroed).
#[verifier::external_body]
pub fn cpu_set_empty() -> (r: nix::sched::CpuSet)
    ensures
        cpus_of(r) == Set::<u64>::empty(),
{
    nix::sched::CpuSet::new()
}

/// Relies on nix::sched::CpuSet::set, whose source accepts exactly
/// the CPU indices below the fixed mask width of 1024 bits, adds the
/// accepted index to the mask, and refuses every other index leaving
/// the mask as it was.
#[verifier::external_body]
pub fn cpu_set_add(set: &mut nix::sched::CpuSet, cpu: usize) -> (r: Result<
    (),
    nix::errno::Errno,
>)
    ensures
        r is Ok <==> cpu < 1024,
        cpu < 1024 ==> cpus_of(*final(set)) == cpus_of(*old(set)).insert(cpu as u64),
        cpu >= 1024 ==> cpus_of(*final(set)) == cpus_of(*old(set)),
{
    set.set(cpu)
}

/// Relies on nix::sched::sched_setaffinity: restricts the process's
/// scheduling to the mask. Success depends on the live process table
/// and on privilege, so the contract promises nothing of the outcome.
#[verifier::external_body]
pub fn set_affinity_raw(pid: i32, set: &nix::sched::CpuSet) -> (r: Result<
    (),
    nix::errno::Errno,
>) {
    nix::sched::sched_setaffinity(nix::unistd::Pid::from_raw(pid), set)
}

} // verus!
