use ping_monitor::window::{PingResult, MIN_SENTINEL};

#[test]
fn push_samples_scenario() {
    let mut w = PingResult::new(String::from("1.1.1.1"));
    w.update_ping(10);
    w.update_ping(50);
    w.update_ping(30);
    assert_eq!(w.last_ping, 30);
    assert_eq!(w.max_ping, 50);
    assert_eq!(w.min_ping, 10);
    assert_eq!(w.get_avg_ping(), 30);
    assert_eq!(w.error_count, 0);
    assert_eq!(w.history_len(), 3);
}

#[test]
fn eviction_scenario() {
    let mut w = PingResult::new(String::from("1.1.1.1"));
    for v in 1..=1001u32 {
        w.update_ping(v);
    }
    assert_eq!(w.history_len(), 1000);
    assert_eq!(w.history_get(0), Some(2));
    assert_eq!(w.history_get(999), Some(1001));
    for i in 0..1000usize {
        assert_eq!(w.history_get(i), Some(i as u32 + 2));
    }
    assert_eq!(w.history_get(1000), None);
    assert_eq!(w.last_ping, 1001);
    assert_eq!(w.max_ping, 1001);
    // The evicted first sample still counts toward the extrema.
    assert_eq!(w.min_ping, 1);
    // The average covers only the retained 1000 samples: 2..=1001.
    assert_eq!(w.get_avg_ping(), (2..=1001u64).sum::<u64>() as u32 / 1000);
}

#[test]
fn error_count_scenario() {
    let mut w = PingResult::new(String::from("1.1.1.1"));
    for _ in 0..5 {
        w.update_error();
    }
    assert_eq!(w.error_count, 5);
    assert_eq!(w.get_avg_ping(), 0);
    assert_eq!(w.last_ping, 0);
    assert_eq!(w.history_len(), 0);
}

#[test]
fn update_error_leaves_ping_stats() {
    let mut w = PingResult::new(String::from("1.1.1.1"));
    w.update_ping(42);
    w.update_error();
    assert_eq!(w.error_count, 1);
    assert_eq!(w.last_ping, 42);
    assert_eq!(w.max_ping, 42);
    assert_eq!(w.min_ping, 42);
    assert_eq!(w.history_len(), 1);
    assert_eq!(w.history_get(0), Some(42));
    assert_eq!(w.ip, "1.1.1.1");
}

#[test]
fn set_ip_scenario() {
    let mut w = PingResult::new(String::from("1.1.1.1"));
    w.update_ping(20);
    w.update_error();
    w.set_ip(String::from("1.1.1.1"));
    assert_eq!(w.ip, "1.1.1.1");
    assert_eq!(w.last_ping, 20);
    assert_eq!(w.max_ping, 20);
    assert_eq!(w.min_ping, 20);
    assert_eq!(w.error_count, 1);
    assert_eq!(w.history_len(), 1);
    w.set_ip(String::from("2.2.2.2"));
    assert_eq!(w.ip, "2.2.2.2");
    assert_eq!(w.last_ping, 0);
    assert_eq!(w.max_ping, 0);
    assert_eq!(w.min_ping, MIN_SENTINEL);
    assert_eq!(w.error_count, 0);
    assert_eq!(w.history_len(), 0);
    assert_eq!(w.history_get(0), None);
}

#[test]
fn new_window_is_initial() {
    let w = PingResult::new(String::from("3.3.3.3"));
    assert_eq!(w.ip, "3.3.3.3");
    assert_eq!(w.last_ping, 0);
    assert_eq!(w.max_ping, 0);
    assert_eq!(w.min_ping, MIN_SENTINEL);
    assert_eq!(w.error_count, 0);
    assert_eq!(w.history_len(), 0);
    assert_eq!(w.get_avg_ping(), 0);
}

#[test]
fn default_window_is_initial() {
    let w = PingResult::default();
    assert_eq!(w.ip, "");
    assert_eq!(w.last_ping, 0);
    assert_eq!(w.max_ping, 0);
    assert_eq!(w.min_ping, MIN_SENTINEL);
    assert_eq!(w.error_count, 0);
    assert_eq!(w.history_len(), 0);
}

#[test]
fn average_truncates() {
    let mut w = PingResult::new(String::from("1.1.1.1"));
    w.update_ping(10);
    w.update_ping(15);
    assert_eq!(w.get_avg_ping(), 12);
}

#[test]
fn first_sample_replaces_sentinel() {
    let mut w = PingResult::new(String::from("1.1.1.1"));
    w.update_ping(700);
    assert_eq!(w.min_ping, 700);
    assert_eq!(w.max_ping, 700);
    assert_eq!(w.last_ping, 700);
    assert_eq!(w.get_avg_ping(), 700);
}
