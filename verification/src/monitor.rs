//! Per-tick decision logic of the monitor loop. Each tick discovers the
//! endpoint from fresh table snapshots, probes it, and reports. The
//! blocking work — taking the snapshots, sending the probe, rendering,
//! sleeping — is the caller's; this module holds the verified decisions
//! that connect those results to the latency window.

use vstd::prelude::*;
use crate::window::{PingResult, seq_sum};
use crate::resolver::{ProcEntry, SockEntry, first_match_pid, first_remote_addr,
    find_process_pids, find_game_servers};

verus! {

/// Outcome of the discovery phase of one tick.
#[derive(Debug, PartialEq, Eq, Structural)]
pub enum DiscoverStatus {
    /// No process in the table matched the target name.
    ProcessNotFound,
    /// The process holds no matching TCP connection.
    EndpointNotFound,
    /// The window now tracks the resolved remote address.
    Tracking,
}

/// Discovery phase: resolve the target process and its remote endpoint
/// from the given table snapshots and adopt the address into the window
/// (resetting it only on a change). On either lookup failure the window
/// is left untouched and the failure is reported.
pub fn tick_discover(
    w: &mut PingResult,
    procs: &Vec<ProcEntry>,
    name: &str,
    socks: &Vec<SockEntry>,
) -> (st: DiscoverStatus)
    ensures
        (match first_match_pid(procs@, name@) {
            Option::None => st == DiscoverStatus::ProcessNotFound && *final(w) == *old(w),
            Option::Some(pid) => match first_remote_addr(socks@, pid) {
                Option::None => st == DiscoverStatus::EndpointNotFound && *final(w) == *old(w),
                Option::Some(addr) => st == DiscoverStatus::Tracking && (if addr == old(w).ip@ {
                    *final(w) == *old(w)
                } else {
                    final(w).is_initial_for(addr)
                }),
            },
        }),
        old(w).wf() ==> final(w).wf(),
        st == DiscoverStatus::Tracking && old(w).ip@ != final(w).ip@ ==> final(w).wf(),
{
    let pid = match find_process_pids(procs, name) {
        Some(p) => p,
        None => {
            return DiscoverStatus::ProcessNotFound;
        },
    };
    match find_game_servers(socks, pid) {
        Some(a) => {
            w.set_ip(a);
            DiscoverStatus::Tracking
        },
        None => DiscoverStatus::EndpointNotFound,
    }
}

/// Probing phase: a measured round trip is folded into the statistics; a
/// failed probe only increments the error counter. Together with the
/// window's well-formedness this pins every statistic: after a sample the
/// model sequence grows by it, and after an error nothing else moves.
pub fn tick_probe(w: &mut PingResult, ping: Option<u32>)
    requires
        old(w).wf(),
        ping is None ==> old(w).error_count < u32::MAX,
    ensures
        final(w).wf(),
        final(w).ip@ == old(w).ip@,
        (match ping {
            Option::Some(p) => final(w).samples@ == old(w).samples@.push(p)
                && final(w).error_count == old(w).error_count,
            Option::None => final(w).error_count == old(w).error_count + 1 && final(w).samples
                == old(w).samples && final(w).ping_history == old(w).ping_history,
        }),
{
    match ping {
        Some(p) => w.update_ping(p),
        None => w.update_error(),
    }
}

/// Read-only snapshot of the window, as handed to the renderer.
pub struct Snapshot {
    pub ip: String,
    pub last_ping: u32,
    pub avg_ping: u32,
    pub max_ping: u32,
    pub min_ping: u32,
    pub error_count: u32,
}

/// Reporting phase: the tracked address and the current statistics, with
/// the average taken over the retained history.
pub fn snapshot(w: &PingResult) -> (s: Snapshot)
    ensures
        s.ip@ == w.ip@,
        s.last_ping == w.last_ping,
        s.max_ping == w.max_ping,
        s.min_ping == w.min_ping,
        s.error_count == w.error_count,
        w.hist().len() == 0 ==> s.avg_ping == 0,
        w.hist().len() > 0 ==> s.avg_ping as int == seq_sum(w.hist()) / (w.hist().len() as int),
{
    Snapshot {
        ip: w.ip.clone(),
        last_ping: w.last_ping,
        avg_ping: w.get_avg_ping(),
        max_ping: w.max_ping,
        min_ping: w.min_ping,
        error_count: w.error_count,
    }
}

} // verus!
