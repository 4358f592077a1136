//! Stateless control-plane operations against a single process:
//! signal delivery and CPU-affinity binding. Each is one atomic
//! request whose failure is reported to the caller, never fatal.

use vstd::prelude::*;
use vstd::slice::slice_subrange;
use crate::parse;
use crate::osapi;

verus! {

/// Why a control operation did not reach its target.
#[derive(Clone, Copy, PartialEq, Eq, Structural, Debug)]
pub enum ControlError {
    /// The signal argument denotes no signal of this platform.
    UnknownSignal,
    /// The operating system refused the request: no such process, or
    /// insufficient privilege.
    OperationRefused,
}

impl ControlError {
    /// A fixed human-readable description.
    pub fn describe(&self) -> (r: &'static str) {
        match self {
            ControlError::UnknownSignal => "unknown signal name",
            ControlError::OperationRefused => "operation refused by the system",
        }
    }
}

/// The signal number of a bare (unprefixed) signal name: the thirty-
/// one names this platform defines, under its customary numbering.
pub open spec fn name_code(t: Seq<u8>) -> Option<i32> {
    if t.len() == 3 && t[0] == 72 && t[1] == 85 && t[2] == 80 {
        // HUP
        Some(1)
    } else if t.len() == 3 && t[0] == 73 && t[1] == 78 && t[2] == 84 {
        // INT
        Some(2)
    } else if t.len() == 4 && t[0] == 81 && t[1] == 85 && t[2] == 73 && t[3] == 84 {
        // QUIT
        Some(3)
    } else if t.len() == 3 && t[0] == 73 && t[1] == 76 && t[2] == 76 {
        // ILL
        Some(4)
    } else if t.len() == 4 && t[0] == 84 && t[1] == 82 && t[2] == 65 && t[3] == 80 {
        // TRAP
        Some(5)
    } else if t.len() == 4 && t[0] == 65 && t[1] == 66 && t[2] == 82 && t[3] == 84 {
        // ABRT
        Some(6)
    } else if t.len() == 3 && t[0] == 66 && t[1] == 85 && t[2] == 83 {
        // BUS
        Some(7)
    } else if t.len() == 3 && t[0] == 70 && t[1] == 80 && t[2] == 69 {
        // FPE
        Some(8)
    } else if t.len() == 4 && t[0] == 75 && t[1] == 73 && t[2] == 76 && t[3] == 76 {
        // KILL
        Some(9)
    } else if t.len() == 4 && t[0] == 85 && t[1] == 83 && t[2] == 82 && t[3] == 49 {
        // USR1
        Some(10)
    } else if t.len() == 4 && t[0] == 83 && t[1] == 69 && t[2] == 71 && t[3] == 86 {
        // SEGV
        Some(11)
    } else if t.len() == 4 && t[0] == 85 && t[1] == 83 && t[2] == 82 && t[3] == 50 {
        // USR2
        Some(12)
    } else if t.len() == 4 && t[0] == 80 && t[1] == 73 && t[2] == 80 && t[3] == 69 {
        // PIPE
        Some(13)
    } else if t.len() == 4 && t[0] == 65 && t[1] == 76 && t[2] == 82 && t[3] == 77 {
        // ALRM
        Some(14)
    } else if t.len() == 4 && t[0] == 84 && t[1] == 69 && t[2] == 82 && t[3] == 77 {
        // TERM
        Some(15)
    } else if t.len() == 6 && t[0] == 83 && t[1] == 84 && t[2] == 75 && t[3] == 70 && t[4] == 76 && t[5] == 84 {
        // STKFLT
        Some(16)
    } else if t.len() == 4 && t[0] == 67 && t[1] == 72 && t[2] == 76 && t[3] == 68 {
        // CHLD
        Some(17)
    } else if t.len() == 4 && t[0] == 67 && t[1] == 79 && t[2] == 78 && t[3] == 84 {
        // CONT
        Some(18)
    } else if t.len() == 4 && t[0] == 83 && t[1] == 84 && t[2] == 79 && t[3] == 80 {
        // STOP
        Some(19)
    } else if t.len() == 4 && t[0] == 84 && t[1] == 83 && t[2] == 84 && t[3] == 80 {
        // TSTP
        Some(20)
    } else if t.len() == 4 && t[0] == 84 && t[1] == 84 && t[2] == 73 && t[3] == 78 {
        // TTIN
        Some(21)
    } else if t.len() == 4 && t[0] == 84 && t[1] == 84 && t[2] == 79 && t[3] == 85 {
        // TTOU
        Some(22)
    } else if t.len() == 3 && t[0] == 85 && t[1] == 82 && t[2] == 71 {
        // URG
        Some(23)
    } else if t.len() == 4 && t[0] == 88 && t[1] == 67 && t[2] == 80 && t[3] == 85 {
        // XCPU
        Some(24)
    } else if t.len() == 4 && t[0] == 88 && t[1] == 70 && t[2] == 83 && t[3] == 90 {
        // XFSZ
        Some(25)
    } else if t.len() == 6 && t[0] == 86 && t[1] == 84 && t[2] == 65 && t[3] == 76 && t[4] == 82 && t[5] == 77 {
        // VTALRM
        Some(26)
    } else if t.len() == 4 && t[0] == 80 && t[1] == 82 && t[2] == 79 && t[3] == 70 {
        // PROF
        Some(27)
    } else if t.len() == 5 && t[0] == 87 && t[1] == 73 && t[2] == 78 && t[3] == 67 && t[4] == 72 {
        // WINCH
        Some(28)
    } else if t.len() == 2 && t[0] == 73 && t[1] == 79 {
        // IO
        Some(29)
    } else if t.len() == 3 && t[0] == 80 && t[1] == 87 && t[2] == 82 {
        // PWR
        Some(30)
    } else if t.len() == 3 && t[0] == 83 && t[1] == 89 && t[2] == 83 {
        // SYS
        Some(31)
    } else {
        None
    }
}

/// Whether the name carries the customary `SIG` prefix.
pub open spec fn has_sig_prefix(t: Seq<u8>) -> bool {
    t.len() >= 3 && t[0] == 83 && t[1] == 73 && t[2] == 71
}

/// What a textual signal argument denotes: a decimal number up to 31
/// (zero probes for existence without delivering), or a platform
/// signal name with or without the `SIG` prefix; anything else —
/// including the realtime numbers, which the safe delivery interface
/// cannot carry — denotes nothing.
pub open spec fn signal_code(t: Seq<u8>) -> Option<i32> {
    match parse::u64_from_token(t) {
        Option::Some(v) => if v <= 31 {
            Some(v as i32)
        } else {
            None
        },
        Option::None => if has_sig_prefix(t) {
            name_code(t.skip(3))
        } else {
            name_code(t)
        },
    }
}

/// Every denoted signal number is between zero and thirty-one.
pub proof fn lemma_signal_code_range(t: Seq<u8>)
    ensures
        signal_code(t) matches Some(c) ==> 0 <= c <= 31,
{
}

fn name_code_exec(t: &[u8]) -> (r: Option<i32>)
    ensures
        r == name_code(t@),
{
    if t.len() == 3 && t[0] == 72 && t[1] == 85 && t[2] == 80 {
        // HUP
        Some(1)
    } else if t.len() == 3 && t[0] == 73 && t[1] == 78 && t[2] == 84 {
        // INT
        Some(2)
    } else if t.len() == 4 && t[0] == 81 && t[1] == 85 && t[2] == 73 && t[3] == 84 {
        // QUIT
        Some(3)
    } else if t.len() == 3 && t[0] == 73 && t[1] == 76 && t[2] == 76 {
        // ILL
        Some(4)
    } else if t.len() == 4 && t[0] == 84 && t[1] == 82 && t[2] == 65 && t[3] == 80 {
        // TRAP
        Some(5)
    } else if t.len() == 4 && t[0] == 65 && t[1] == 66 && t[2] == 82 && t[3] == 84 {
        // ABRT
        Some(6)
    } else if t.len() == 3 && t[0] == 66 && t[1] == 85 && t[2] == 83 {
        // BUS
        Some(7)
    } else if t.len() == 3 && t[0] == 70 && t[1] == 80 && t[2] == 69 {
        // FPE
        Some(8)
    } else if t.len() == 4 && t[0] == 75 && t[1] == 73 && t[2] == 76 && t[3] == 76 {
        // KILL
        Some(9)
    } else if t.len() == 4 && t[0] == 85 && t[1] == 83 && t[2] == 82 && t[3] == 49 {
        // USR1
        Some(10)
    } else if t.len() == 4 && t[0] == 83 && t[1] == 69 && t[2] == 71 && t[3] == 86 {
        // SEGV
        Some(11)
    } else if t.len() == 4 && t[0] == 85 && t[1] == 83 && t[2] == 82 && t[3] == 50 {
        // USR2
        Some(12)
    } else if t.len() == 4 && t[0] == 80 && t[1] == 73 && t[2] == 80 && t[3] == 69 {
        // PIPE
        Some(13)
    } else if t.len() == 4 && t[0] == 65 && t[1] == 76 && t[2] == 82 && t[3] == 77 {
        // ALRM
        Some(14)
    } else if t.len() == 4 && t[0] == 84 && t[1] == 69 && t[2] == 82 && t[3] == 77 {
        // TERM
        Some(15)
    } else if t.len() == 6 && t[0] == 83 && t[1] == 84 && t[2] == 75 && t[3] == 70 && t[4] == 76 && t[5] == 84 {
        // STKFLT
        Some(16)
    } else if t.len() == 4 && t[0] == 67 && t[1] == 72 && t[2] == 76 && t[3] == 68 {
        // CHLD
        Some(17)
    } else if t.len() == 4 && t[0] == 67 && t[1] == 79 && t[2] == 78 && t[3] == 84 {
        // CONT
        Some(18)
    } else if t.len() == 4 && t[0] == 83 && t[1] == 84 && t[2] == 79 && t[3] == 80 {
        // STOP
        Some(19)
    } else if t.len() == 4 && t[0] == 84 && t[1] == 83 && t[2] == 84 && t[3] == 80 {
        // TSTP
        Some(20)
    } else if t.len() == 4 && t[0] == 84 && t[1] == 84 && t[2] == 73 && t[3] == 78 {
        // TTIN
        Some(21)
    } else if t.len() == 4 && t[0] == 84 && t[1] == 84 && t[2] == 79 && t[3] == 85 {
        // TTOU
        Some(22)
    } else if t.len() == 3 && t[0] == 85 && t[1] == 82 && t[2] == 71 {
        // URG
        Some(23)
    } else if t.len() == 4 && t[0] == 88 && t[1] == 67 && t[2] == 80 && t[3] == 85 {
        // XCPU
        Some(24)
    } else if t.len() == 4 && t[0] == 88 && t[1] == 70 && t[2] == 83 && t[3] == 90 {
        // XFSZ
        Some(25)
    } else if t.len() == 6 && t[0] == 86 && t[1] == 84 && t[2] == 65 && t[3] == 76 && t[4] == 82 && t[5] == 77 {
        // VTALRM
        Some(26)
    } else if t.len() == 4 && t[0] == 80 && t[1] == 82 && t[2] == 79 && t[3] == 70 {
        // PROF
        Some(27)
    } else if t.len() == 5 && t[0] == 87 && t[1] == 73 && t[2] == 78 && t[3] == 67 && t[4] == 72 {
        // WINCH
        Some(28)
    } else if t.len() == 2 && t[0] == 73 && t[1] == 79 {
        // IO
        Some(29)
    } else if t.len() == 3 && t[0] == 80 && t[1] == 87 && t[2] == 82 {
        // PWR
        Some(30)
    } else if t.len() == 3 && t[0] == 83 && t[1] == 89 && t[2] == 83 {
        // SYS
        Some(31)
    } else {
        None
    }
}

/// Read a textual signal argument into its signal number.
pub fn parse_signal_code(t: &[u8]) -> (r: Option<i32>)
    ensures
        r == signal_code(t@),
{
    match parse::parse_u64_digits(t) {
        Some(v) => if v <= 31 {
            Some(v as i32)
        } else {
            None
        },
        None => {
            if t.len() >= 3 && t[0] == 83 && t[1] == 73 && t[2] == 71 {
                let rest = slice_subrange(t, 3, t.len());
                proof {
                    assert(rest@ =~= t@.skip(3));
                }
                name_code_exec(rest)
            } else {
                name_code_exec(t)
            }
        },
    }
}

/// Deliver the named signal to the process. An argument that denotes
/// no signal of this platform is reported as `UnknownSignal`, exactly
/// then, without touching the system; for every denoted signal the
/// request reaches the system, whose refusal (no such process, no
/// privilege) is reported as `OperationRefused`. Success means the
/// system accepted the delivery.
pub fn send_signal(pid: i32, signal_name: &[u8]) -> (r: Result<(), ControlError>)
    ensures
        r == Err::<(), ControlError>(ControlError::UnknownSignal) <==> signal_code(
            signal_name@,
        ) is None,
        signal_code(signal_name@) is Some ==> r is Ok || r == Err::<(), ControlError>(
            ControlError::OperationRefused,
        ),
{
    let code = match parse_signal_code(signal_name) {
        Some(c) => c,
        None => {
            return Err(ControlError::UnknownSignal);
        },
    };
    proof {
        lemma_signal_code_range(signal_name@);
    }
    if code == 0 {
        // signal zero: existence probe, nothing delivered
        match osapi::kill_raw(pid, None) {
            Ok(_) => Ok(()),
            Err(_) => Err(ControlError::OperationRefused),
        }
    } else {
        match osapi::signal_of_number(code) {
            Some(sig) => match osapi::kill_raw(pid, Some(sig)) {
                Ok(_) => Ok(()),
                Err(_) => Err(ControlError::OperationRefused),
            },
            None => {
                // unreachable: every denoted nonzero number is a
                // platform signal
                proof {
                    assert(false);
                }
                Err(ControlError::OperationRefused)
            },
        }
    }
}

/// Build the affinity mask of one single CPU: the mask holds exactly
/// the chosen index and nothing else. An index at or beyond the fixed
/// mask width of 1024 is refused.
pub fn single_cpu_mask(cpu_index: u32) -> (r: Option<nix::sched::CpuSet>)
    ensures
        r is Some <==> cpu_index < 1024,
        r matches Some(m) ==> osapi::cpus_of(m) == Set::<u64>::empty().insert(
            cpu_index as u64,
        ),
{
    let mut mask = osapi::cpu_set_empty();
    match osapi::cpu_set_add(&mut mask, cpu_index as usize) {
        Ok(_) => Some(mask),
        Err(_) => None,
    }
}

/// Restrict the process's scheduling to the single given logical CPU:
/// the request handed to the system is the one-CPU mask that
/// `single_cpu_mask` states, whatever the process's prior mask.
/// Returns whether the system accepted the binding; an index at or
/// beyond the fixed mask width of 1024 is always refused.
pub fn bind_to_cpu(pid: i32, cpu_index: u32) -> (r: bool)
    ensures
        cpu_index >= 1024 ==> r == false,
{
    match single_cpu_mask(cpu_index) {
        Some(mask) => match osapi::set_affinity_raw(pid, &mask) {
            Ok(_) => true,
            Err(_) => false,
        },
        None => false,
    }
}

} // verus!
