//! The core scheduler: picks or checks the core a network function runs on.

use super::constants::{MANUAL_CORE_ASSIGNMENT_BIT, SHARE_CORE_BIT};
use super::funcs_macros::{bit_is_set, onvm_check_bit};
use super::structs::CoreStatus;
use vstd::prelude::*;

verus! {

/// Why no core was assigned.
#[derive(Clone, Copy, Debug, PartialEq, Eq, Structural)]
pub enum SchedulingError {
    /// No core is reserved for network functions and free of a dedication.
    NoCores,
    /// A dedicated core was asked for and none is idle.
    NoDedicatedCores,
    /// The core named in the request does not exist or is not reserved for
    /// network functions.
    CoreOutOfRange,
    /// The core named in the request is dedicated to another network
    /// function.
    CoreBusy,
}

/// Whether the options ask for the core named in the request.
pub open spec fn wants_manual(flags: u8) -> bool {
    bit_is_set(flags, MANUAL_CORE_ASSIGNMENT_BIT as nat)
}

/// Whether the options ask for a core that is shared with nobody.
pub open spec fn wants_dedicated(flags: u8) -> bool {
    !bit_is_set(flags, SHARE_CORE_BIT as nat)
}

/// Whether the automatic path may pick this core: it is reserved for
/// network functions and dedicated to none.
pub open spec fn eligible(core: CoreStatus) -> bool {
    core.enabled && !core.is_dedicated_core
}

/// The core the automatic path picks among the first `n` cores: the
/// eligible one with the smallest count, the first of them where several
/// have it.
pub open spec fn best_core(cores: Seq<CoreStatus>, n: nat) -> Option<int>
    decreases n,
{
    if n == 0 {
        None
    } else {
        let prev = best_core(cores, (n - 1) as nat);
        let i = n - 1;
        if i < cores.len() && eligible(cores[i]) && (prev is None || cores[i].nf_count
            < cores[prev->0].nf_count) {
            Some(i)
        } else {
            prev
        }
    }
}

/// What a request for a core is answered with.
pub open spec fn assign_outcome(cores: Seq<CoreStatus>, requested: u16, flags: u8) -> Result<
    u16,
    SchedulingError,
> {
    if wants_manual(flags) {
        if requested >= cores.len() || !cores[requested as int].enabled {
            Err(SchedulingError::CoreOutOfRange)
        } else if cores[requested as int].is_dedicated_core {
            Err(SchedulingError::CoreBusy)
        } else if wants_dedicated(flags) && cores[requested as int].nf_count != 0 {
            Err(SchedulingError::NoDedicatedCores)
        } else {
            Ok(requested)
        }
    } else {
        match best_core(cores, cores.len()) {
            None => Err(SchedulingError::NoCores),
            Some(b) => if wants_dedicated(flags) && cores[b].nf_count > 0 {
                Err(SchedulingError::NoDedicatedCores)
            } else {
                Ok(b as u16)
            },
        }
    }
}

/// The core table after core `core` took one more network function with the
/// options `flags`.
pub open spec fn cores_after_assign(cores: Seq<CoreStatus>, core: int, flags: u8) -> Seq<CoreStatus> {
    cores.update(
        core,
        CoreStatus {
            enabled: cores[core].enabled,
            is_dedicated_core: cores[core].is_dedicated_core || wants_dedicated(flags),
            nf_count: (cores[core].nf_count + 1) as u16,
        },
    )
}

/// The core table after a network function left core `core`: one fewer on
/// it, and its dedication gone whoever held it.
pub open spec fn cores_after_release(cores: Seq<CoreStatus>, core: int) -> Seq<CoreStatus> {
    if 0 <= core < cores.len() {
        cores.update(
            core,
            CoreStatus {
                enabled: cores[core].enabled,
                is_dedicated_core: false,
                nf_count: if cores[core].nf_count > 0 {
                    (cores[core].nf_count - 1) as u16
                } else {
                    0
                },
            },
        )
    } else {
        cores
    }
}

/// What `best_core` picks is eligible, has the smallest count among the
/// eligible cores, and comes before every other core with that count.
pub proof fn lemma_best_core(cores: Seq<CoreStatus>, n: nat)
    requires
        n <= cores.len(),
    ensures
        match best_core(cores, n) {
            None => forall|j: int| 0 <= j < n ==> !eligible(#[trigger] cores[j]),
            Some(b) => {
                &&& 0 <= b < n
                &&& eligible(cores[b])
                &&& forall|j: int|
                    0 <= j < n && eligible(#[trigger] cores[j]) ==> cores[b].nf_count
                        <= cores[j].nf_count
                &&& forall|j: int|
                    0 <= j < b && eligible(#[trigger] cores[j]) ==> cores[b].nf_count
                        < cores[j].nf_count
            },
        },
    decreases n,
{
    if n > 0 {
        lemma_best_core(cores, (n - 1) as nat);
    }
}

/// A request is granted only for a core of the table that is reserved for
/// network functions and dedicated to nobody, and a dedicated core only
/// where that core is idle.
pub proof fn lemma_assign_outcome(cores: Seq<CoreStatus>, requested: u16, flags: u8)
    requires
        cores.len() <= 0x10000,
    ensures
        assign_outcome(cores, requested, flags) matches Ok(c) ==> {
            &&& c < cores.len()
            &&& eligible(cores[c as int])
            &&& wants_dedicated(flags) ==> cores[c as int].nf_count == 0
        },
{
    lemma_best_core(cores, cores.len());
}

/// Assigns a core to a network function.
///
/// With the manual bit set in `flags`, the core `core_value` is taken if it
/// exists, is reserved for network functions and is dedicated to nobody; a
/// request without the share bit also needs it to be idle, and dedicates
/// it. Without the manual bit, the eligible core with the fewest network
/// functions is taken, the lowest of them on a tie. The count of the
/// assigned core goes up by one; a refused request changes nothing.
pub fn onvm_threading_get_core(core_value: u16, flags: u8, cores: &mut Vec<CoreStatus>) -> (r: Result<
    u16,
    SchedulingError,
>)
    requires
        old(cores)@.len() <= 0x10000,
        forall|i: int| 0 <= i < old(cores)@.len() ==> (#[trigger] old(cores)@[i]).nf_count < u16::MAX,
    ensures
        r == assign_outcome(old(cores)@, core_value, flags),
        match r {
            Ok(c) => c < old(cores)@.len() && final(cores)@ == cores_after_assign(
                old(cores)@,
                c as int,
                flags,
            ),
            Err(_) => final(cores)@ == old(cores)@,
        },
{
    let mut options = flags;
    let manual = onvm_check_bit(&mut options, MANUAL_CORE_ASSIGNMENT_BIT);
    let shared = onvm_check_bit(&mut options, SHARE_CORE_BIT);
    let max_cores = cores.len();
    if manual {
        let pref = core_value as usize;
        if pref >= max_cores || !cores[pref].enabled {
            return Err(SchedulingError::CoreOutOfRange);
        }
        if cores[pref].is_dedicated_core {
            return Err(SchedulingError::CoreBusy);
        }
        let mut entry = cores[pref];
        if !shared {
            if entry.nf_count == 0 {
                entry.is_dedicated_core = true;
            } else {
                return Err(SchedulingError::NoDedicatedCores);
            }
        }
        entry.nf_count = entry.nf_count + 1;
        cores.set(pref, entry);
        return Ok(core_value);
    }
    let mut best: Option<usize> = None;
    let mut i: usize = 0;
    while i < max_cores
        invariant
            i <= max_cores,
            max_cores == cores@.len(),
            cores@ == old(cores)@,
            match best {
                None => best_core(cores@, i as nat) is None,
                Some(b) => b < i && best_core(cores@, i as nat) == Some(b as int),
            },
        decreases max_cores - i,
    {
        if cores[i].enabled && !cores[i].is_dedicated_core {
            match best {
                None => {
                    best = Some(i);
                },
                Some(b) => {
                    if cores[i].nf_count < cores[b].nf_count {
                        best = Some(i);
                    }
                },
            }
        }
        i = i + 1;
    }
    match best {
        None => Err(SchedulingError::NoCores),
        Some(b) => {
            let mut entry = cores[b];
            if !shared {
                if entry.nf_count > 0 {
                    return Err(SchedulingError::NoDedicatedCores);
                }
                entry.is_dedicated_core = true;
            }
            entry.nf_count = entry.nf_count + 1;
            cores.set(b, entry);
            Ok(b as u16)
        },
    }
}

/// Takes a network function off core `core_id`: its count goes down by one
/// and its dedication is cleared, whoever held it. A core that is not in
/// the table is refused.
pub fn onvm_threading_release_core(core_id: u16, cores: &mut Vec<CoreStatus>) -> (r: Result<
    (),
    SchedulingError,
>)
    ensures
        final(cores)@ == cores_after_release(old(cores)@, core_id as int),
        r is Ok <==> core_id < old(cores)@.len(),
        r is Err ==> r == Err::<(), SchedulingError>(SchedulingError::CoreOutOfRange),
{
    let idx = core_id as usize;
    if idx >= cores.len() {
        return Err(SchedulingError::CoreOutOfRange);
    }
    let mut entry = cores[idx];
    if entry.nf_count > 0 {
        entry.nf_count = entry.nf_count - 1;
    }
    entry.is_dedicated_core = false;
    cores.set(idx, entry);
    Ok(())
}

} // verus!
