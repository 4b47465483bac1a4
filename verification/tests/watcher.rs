use mini_badger::app_monitor::AppMonitor;
use mini_badger::app_monitor::CustomEvent;
use mini_badger::app_monitor::MonitorManager;

fn event_parts(ev: CustomEvent) -> (String, String) {
    match ev {
        CustomEvent::UpdateCount(name, value) => (name, value),
    }
}

#[test]
fn first_probe_always_emits() {
    let mut m = AppMonitor::new("Mail".to_string(), 1);
    let ev = m.observe("0".to_string());
    let (name, value) = event_parts(ev.expect("fresh watcher must emit on first probe"));
    assert_eq!(name, "Mail");
    assert_eq!(value, "0");
}

#[test]
fn unchanged_value_emits_nothing() {
    let mut m = AppMonitor::new("Mail".to_string(), 1);
    assert!(m.observe("5".to_string()).is_some());
    assert!(m.observe("5".to_string()).is_none());
    assert!(m.observe("5".to_string()).is_none());
}

#[test]
fn event_count_equals_change_count() {
    // Changes at positions 0 ("" -> "1"), 2 ("1" -> "2") and 4 ("2" -> "1").
    let mut m = AppMonitor::new("A".to_string(), 1);
    let counts: Vec<String> = ["1", "1", "2", "2", "1"].iter().map(|s| s.to_string()).collect();
    let events = m.observe_all(counts);
    assert_eq!(events.len(), 3);
    let values: Vec<String> = events.into_iter().map(|e| event_parts(e).1).collect();
    assert_eq!(values, vec!["1".to_string(), "2".to_string(), "1".to_string()]);
}

#[test]
fn repeated_value_emits_exactly_once() {
    let mut m = AppMonitor::new("A".to_string(), 1);
    let counts: Vec<String> = ["7", "7", "7", "7"].iter().map(|s| s.to_string()).collect();
    let events = m.observe_all(counts);
    assert_eq!(events.len(), 1);
    let (name, value) = event_parts(events.into_iter().next().unwrap());
    assert_eq!(name, "A");
    assert_eq!(value, "7");
}

#[test]
fn sentinel_matching_last_value_never_emits() {
    // A probe that alternates between failing (degrading to the sentinel
    // "0") and succeeding with the value "0" feeds a constant stream of
    // "0" to a watcher whose last-seen value is already "0": no false
    // transition may be reported.
    let mut m = AppMonitor::new("A".to_string(), 1);
    assert!(m.observe("0".to_string()).is_some());
    let counts: Vec<String> = ["0", "0", "0", "0", "0"].iter().map(|s| s.to_string()).collect();
    let events = m.observe_all(counts);
    assert!(events.is_empty());
}

#[test]
fn emissions_carry_own_name_only() {
    let mut a = AppMonitor::new("Mail".to_string(), 1);
    let mut b = AppMonitor::new("Things".to_string(), 1);
    let counts: Vec<String> = ["1", "2", "2", "3"].iter().map(|s| s.to_string()).collect();
    let events_a = a.observe_all(counts.clone());
    let events_b = b.observe_all(counts);
    for ev in events_a {
        assert_eq!(event_parts(ev).0, "Mail");
    }
    for ev in events_b {
        assert_eq!(event_parts(ev).0, "Things");
    }
}

#[test]
fn mail_scenario() {
    // Target {"Mail", interval = 1}; the initial probe at startup brings the
    // last-seen value to "0", then the probe sequence "0","0","3","3","3","0"
    // at ticks 1..6 produces events at ticks 3 and 6 only.
    let mut m = AppMonitor::new("Mail".to_string(), 1);
    m.observe("0".to_string());
    let ticks = ["0", "0", "3", "3", "3", "0"];
    let mut emitted: Vec<(usize, String, String)> = Vec::new();
    for (pos, tick) in ticks.iter().enumerate() {
        if let Some(ev) = m.observe(tick.to_string()) {
            let (name, value) = event_parts(ev);
            emitted.push((pos + 1, name, value));
        }
    }
    assert_eq!(
        emitted,
        vec![
            (3, "Mail".to_string(), "3".to_string()),
            (6, "Mail".to_string(), "0".to_string()),
        ]
    );
}

#[test]
fn registry_two_targets_interleaved() {
    // Registry with {"Mail", 2} and {"Things", 5}: interleaved probing keeps
    // the two watchers independent; every event carries the name of the
    // watcher that produced it with the value that watcher saw, and each
    // watcher's events stay in its own detection order.
    let mut mgr = MonitorManager::new();
    mgr.add_monitor("Mail".to_string(), 2);
    mgr.add_monitor("Things".to_string(), 5);
    assert_eq!(mgr.monitor_count(), 2);

    let mut log: Vec<(String, String)> = Vec::new();
    let schedule: [(usize, &str); 7] = [
        (0, "1"),
        (1, "4"),
        (0, "1"),
        (1, "5"),
        (0, "2"),
        (1, "5"),
        (0, "2"),
    ];
    for (idx, value) in schedule {
        if let Some(ev) = mgr.observe_at(idx, value.to_string()) {
            log.push(event_parts(ev));
        }
    }
    assert_eq!(
        log,
        vec![
            ("Mail".to_string(), "1".to_string()),
            ("Things".to_string(), "4".to_string()),
            ("Things".to_string(), "5".to_string()),
            ("Mail".to_string(), "2".to_string()),
        ]
    );
    let mail_events: Vec<&(String, String)> = log.iter().filter(|e| e.0 == "Mail").collect();
    assert_eq!(mail_events.len(), 2);
    assert_eq!(mail_events[0].1, "1");
    assert_eq!(mail_events[1].1, "2");
}

#[test]
fn interval_is_kept() {
    let m = AppMonitor::new("Mail".to_string(), 42);
    assert_eq!(m.interval_secs(), 42);
}
