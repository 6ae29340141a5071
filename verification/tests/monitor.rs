use ping_monitor::monitor::{DiscoverStatus, tick_discover, tick_probe, snapshot};
use ping_monitor::resolver::{ProcEntry, SockEntry};
use ping_monitor::window::{PingResult, MIN_SENTINEL};

fn game_tables() -> (Vec<ProcEntry>, Vec<SockEntry>) {
    let procs = vec![
        ProcEntry { pid: 10, name: String::from("systemd") },
        ProcEntry { pid: 77, name: String::from("ffxiv_dx11.exe") },
    ];
    let socks = vec![
        SockEntry { pids: vec![10], tcp: true, remote_addr: String::from("9.9.9.9:443") },
        SockEntry { pids: vec![77], tcp: true, remote_addr: String::from("1.1.1.1:54992") },
    ];
    (procs, socks)
}

#[test]
fn discover_process_not_found() {
    let (_, socks) = game_tables();
    let procs = vec![ProcEntry { pid: 10, name: String::from("systemd") }];
    let mut w = PingResult::default();
    let st = tick_discover(&mut w, &procs, "ffxiv_dx11", &socks);
    assert_eq!(st, DiscoverStatus::ProcessNotFound);
    assert_eq!(w.ip, "");
    assert_eq!(w.error_count, 0);
}

#[test]
fn discover_endpoint_not_found() {
    let (procs, _) = game_tables();
    let socks = vec![SockEntry {
        pids: vec![10],
        tcp: true,
        remote_addr: String::from("9.9.9.9:443"),
    }];
    let mut w = PingResult::default();
    let st = tick_discover(&mut w, &procs, "ffxiv_dx11", &socks);
    assert_eq!(st, DiscoverStatus::EndpointNotFound);
    assert_eq!(w.ip, "");
}

#[test]
fn discover_adopts_address_and_keeps_it() {
    let (procs, socks) = game_tables();
    let mut w = PingResult::default();
    let st = tick_discover(&mut w, &procs, "ffxiv_dx11", &socks);
    assert_eq!(st, DiscoverStatus::Tracking);
    assert_eq!(w.ip, "1.1.1.1:54992");
    w.update_ping(20);
    // Re-discovering the same endpoint must not reset the statistics.
    let st2 = tick_discover(&mut w, &procs, "ffxiv_dx11", &socks);
    assert_eq!(st2, DiscoverStatus::Tracking);
    assert_eq!(w.last_ping, 20);
    assert_eq!(w.history_len(), 1);
}

#[test]
fn discover_change_resets() {
    let (procs, mut socks) = game_tables();
    let mut w = PingResult::default();
    tick_discover(&mut w, &procs, "ffxiv_dx11", &socks);
    w.update_ping(20);
    w.update_error();
    socks[1].remote_addr = String::from("2.2.2.2:54992");
    let st = tick_discover(&mut w, &procs, "ffxiv_dx11", &socks);
    assert_eq!(st, DiscoverStatus::Tracking);
    assert_eq!(w.ip, "2.2.2.2:54992");
    assert_eq!(w.last_ping, 0);
    assert_eq!(w.max_ping, 0);
    assert_eq!(w.min_ping, MIN_SENTINEL);
    assert_eq!(w.error_count, 0);
    assert_eq!(w.history_len(), 0);
}

#[test]
fn probe_outcomes() {
    let mut w = PingResult::new(String::from("1.1.1.1"));
    tick_probe(&mut w, Some(33));
    assert_eq!(w.last_ping, 33);
    assert_eq!(w.error_count, 0);
    tick_probe(&mut w, None);
    assert_eq!(w.last_ping, 33);
    assert_eq!(w.error_count, 1);
    assert_eq!(w.history_len(), 1);
}

#[test]
fn snapshot_reports_current_state() {
    let mut w = PingResult::new(String::from("1.1.1.1"));
    w.update_ping(10);
    w.update_ping(15);
    w.update_error();
    let s = snapshot(&w);
    assert_eq!(s.ip, "1.1.1.1");
    assert_eq!(s.last_ping, 15);
    assert_eq!(s.avg_ping, 12);
    assert_eq!(s.max_ping, 15);
    assert_eq!(s.min_ping, 10);
    assert_eq!(s.error_count, 1);
}
