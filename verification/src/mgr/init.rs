//! The startup of the manager: the state is made for the machine at hand,
//! the switches of the command line are applied, and the pools and rings
//! are set up.

use super::get_args::{
    app_args_outcome, app_switches, arg_texts, parse_app_args, parse_outcome, switch_value,
    AppArgsReport, AppArgsReportView, ConfigError,
};
use super::global::{
    boot_view, fresh_free_stack, is_live, lemma_no_live_slots, status_is_live, GlobalNFState,
    ManagerView, MAX_CORES, NF_INIT_CFG_POOL_SIZE, NF_MSG_POOL_SIZE,
};
use crate::nflib::constants::{MAX_NFS, NUM_MBUFS, ONVM_NF_SHARE_CORES_DEFAULT, RTE_MAX_ETHPORTS};
use crate::nflib::pool::Pool;
use crate::nflib::ring::Ring;
use crate::nflib::structs::{Flag, MsgObject, OnvmConfiguration, PortInfo, SlotView};
use vstd::prelude::*;

verus! {

/// `num_cpus::get`: the number of logical cores available to this process.
/// It depends on the machine and on what the process may use, so nothing
/// is said of it but that it is at least 1.
#[verifier::external_body]
fn available_cpus() -> (n: usize)
    ensures
        n >= 1,
{
    num_cpus::get()
}

/// What the manager hands back from its startup: its state, and what the
/// switches did.
pub struct InitOutcome {
    pub state: GlobalNFState,
    pub report: AppArgsReport,
}

/// The configuration the manager starts with: the switch for shared cores
/// is 1 unless sharing is the default.
pub open spec fn default_config() -> OnvmConfiguration {
    OnvmConfiguration {
        flags: Flag {
            onvm_nf_share_cores: if ONVM_NF_SHARE_CORES_DEFAULT {
                0
            } else {
                1
            },
        },
    }
}

/// Sets the configuration the manager starts with.
pub fn set_default_config(config: &mut OnvmConfiguration)
    ensures
        *final(config) == default_config(),
{
    if ONVM_NF_SHARE_CORES_DEFAULT {
        config.set_flag(0);
    } else {
        config.set_flag(1);
    }
}

/// Sets up the pool of packet buffers: `NUM_MBUFS` objects, all free.
pub fn init_mbuf_pools(global_state: &mut GlobalNFState)
    requires
        old(global_state).wf(),
    ensures
        final(global_state).wf(),
        final(global_state)@ == (ManagerView {
            pkt_pool_free: fresh_free_stack(NUM_MBUFS as nat),
            ..old(global_state)@
        }),
{
    global_state.pktmbuf_pool = Pool::new(NUM_MBUFS as usize);
}

/// Sets up the pool of control-message objects: a full message ring's worth
/// for every slot, all free.
pub fn init_nf_msg_pool(global_state: &mut GlobalNFState)
    requires
        old(global_state).wf(),
    ensures
        final(global_state).wf(),
        final(global_state)@ == (ManagerView {
            msg_pool_free: fresh_free_stack(NF_MSG_POOL_SIZE as nat),
            ..old(global_state)@
        }),
{
    global_state.nf_msg_pool = Pool::new(NF_MSG_POOL_SIZE);
}

/// Whether no slot holds a network function.
pub open spec fn no_slot_live(slots: Seq<SlotView>) -> bool {
    forall|i: int| 0 <= i < slots.len() ==> !is_live((#[trigger] slots[i]).status)
}

/// Sets up the pool of configuration blocks: one per slot, all free. While
/// a slot holds a network function, and with it a block of the pool, the
/// pool is left as it is; the answer tells whether it was set up.
pub fn init_nf_init_cfg_pool(global_state: &mut GlobalNFState) -> (r: bool)
    requires
        old(global_state).wf(),
    ensures
        final(global_state).wf(),
        r == no_slot_live(old(global_state)@.slots),
        r ==> final(global_state)@ == (ManagerView {
            cfg_pool_free: fresh_free_stack(NF_INIT_CFG_POOL_SIZE as nat),
            ..old(global_state)@
        }),
        !r ==> final(global_state)@ == old(global_state)@,
{
    let mut i: usize = 0;
    while i < global_state.nfs.len()
        invariant
            i <= global_state.nfs@.len(),
            *global_state == *old(global_state),
            global_state.wf(),
            forall|k: int| 0 <= k < i ==> !is_live((#[trigger] global_state@.slots[k]).status),
        decreases global_state.nfs@.len() - i,
    {
        assert(global_state@.slots[i as int] == global_state.nfs@[i as int]@);
        if status_is_live(global_state.nfs[i].status) {
            return false;
        }
        i = i + 1;
    }
    global_state.nf_init_cfg_pool = Pool::new(NF_INIT_CFG_POOL_SIZE);
    proof {
        lemma_no_live_slots(global_state@.slots);
        assert(global_state@.cfg_pool_free =~= fresh_free_stack(NF_INIT_CFG_POOL_SIZE as nat));
        assert(global_state@.slots =~= old(global_state)@.slots);
        assert(global_state@.services =~= old(global_state)@.services);
    }
    true
}

/// Sets up the ring on which the network functions send to the manager:
/// room for `MAX_NFS` messages, empty.
pub fn init_info_queue(global_state: &mut GlobalNFState)
    requires
        old(global_state).wf(),
    ensures
        final(global_state).wf(),
        final(global_state)@ == (ManagerView {
            incoming: Seq::<MsgObject>::empty(),
            ..old(global_state)@
        }),
{
    global_state.incoming_msg_queue = Ring::new(MAX_NFS as usize);
}

/// Marks port `port_id` as initialised. A port number the port table has
/// no entry for changes nothing.
pub fn mark_port_initialised(global_state: &mut GlobalNFState, port_id: u8) -> (r: bool)
    requires
        old(global_state).wf(),
    ensures
        final(global_state).wf(),
        r == (port_id < RTE_MAX_ETHPORTS),
        r ==> final(global_state)@ == (ManagerView {
            ports: PortInfo {
                init: vstd::array::spec_array_update(
                    old(global_state)@.ports.init,
                    port_id as int,
                    1u8,
                ),
                ..old(global_state)@.ports
            },
            ..old(global_state)@
        }),
        !r ==> final(global_state)@ == old(global_state)@,
{
    if port_id as usize >= RTE_MAX_ETHPORTS {
        return false;
    }
    global_state.ports.init[port_id as usize] = 1;
    proof {
        let expected = vstd::array::spec_array_update(
            old(global_state)@.ports.init,
            port_id as int,
            1u8,
        );
        assert(global_state.ports.init =~= expected);
    }
    true
}

/// What the startup on a machine with `num_cores` cores leads to: the
/// state at boot with the starting configuration and the switches of the
/// command line applied, or the refusal of the command line.
pub open spec fn init_outcome(args: Seq<Seq<char>>, total_ports: u16, num_cores: nat) -> Result<
    (ManagerView, AppArgsReportView),
    ConfigError,
> {
    let boot = ManagerView { onvm_config: default_config(), ..boot_view(num_cores) };
    match parse_outcome(app_switches(), args) {
        None => Err(ConfigError::Arguments),
        Some(values) => {
            let out = app_args_outcome(
                boot,
                total_ports,
                switch_value(values, "p"@),
                switch_value(values, "r"@),
                switch_value(values, "n"@),
            );
            match out.1 {
                Ok(report) => Ok((out.0, report)),
                Err(e) => Err(e),
            }
        },
    }
}

/// Whether `r` is what the startup on a machine with `num_cores` cores
/// hands back.
pub open spec fn is_init_outcome(
    r: Result<InitOutcome, ConfigError>,
    args: Seq<Seq<char>>,
    total_ports: u16,
    num_cores: nat,
) -> bool {
    match init_outcome(args, total_ports, num_cores) {
        Ok(expected) => r matches Ok(out) && out.state.wf() && out.state@ == expected.0 && out.report@
            == expected.1,
        Err(e) => r is Err && r->Err_0 == e,
    }
}

/// The number of cores the core table describes on a machine with
/// `num_cores` cores: all of them, as far as core ids reach.
pub open spec fn table_cores(num_cores: usize) -> nat {
    if num_cores <= MAX_CORES {
        num_cores as nat
    } else {
        MAX_CORES as nat
    }
}

/// Starts the manager on a machine with `num_cores` cores and `total_ports`
/// ports, with the command line `args`.
///
/// The state is made, the starting configuration is set, the switches of
/// the command line are applied and the pools and the ring of incoming
/// messages are set up. A command line that is refused stops the startup.
pub fn init_with_cores(args: Vec<String>, total_ports: u16, num_cores: usize) -> (r: Result<
    InitOutcome,
    ConfigError,
>)
    ensures
        is_init_outcome(r, arg_texts(args@), total_ports, table_cores(num_cores)),
{
    let cores = if num_cores <= MAX_CORES {
        num_cores
    } else {
        MAX_CORES
    };
    let mut global_state = GlobalNFState::new(cores);
    set_default_config(&mut global_state.onvm_config);
    let report = match parse_app_args(total_ports, &mut global_state, args) {
        Ok(report) => report,
        Err(e) => {
            return Err(e);
        },
    };
    let ghost parsed = global_state@;
    init_mbuf_pools(&mut global_state);
    init_nf_init_cfg_pool(&mut global_state);
    init_nf_msg_pool(&mut global_state);
    init_info_queue(&mut global_state);
    proof {
        assert(global_state@.incoming =~= parsed.incoming);
        assert(global_state@ == parsed);
    }
    Ok(InitOutcome { state: global_state, report })
}

/// Starts the manager on this machine, which has `total_ports` ports, with
/// the command line `args`: as `init_with_cores`, for the number of cores
/// that the machine reports, which is at least 1.
pub fn init(args: Vec<String>, total_ports: u16) -> (r: Result<InitOutcome, ConfigError>)
    ensures
        exists|num_cores: nat|
            1 <= num_cores <= MAX_CORES && #[trigger] is_init_outcome(
                r,
                arg_texts(args@),
                total_ports,
                num_cores,
            ),
{
    let num_cores = available_cpus();
    let r = init_with_cores(args, total_ports, num_cores);
    proof {
        assert(is_init_outcome(r, arg_texts(args@), total_ports, table_cores(num_cores)));
    }
    r
}

} // verus!
