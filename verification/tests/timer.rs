use dropseed::timer_wheel::{EngineTimerWheel, TimerEntry, TimerEntryKey};

fn wheel() -> EngineTimerWheel {
    // Idle every 16 ms, collection every 3000 ms, created at instant 1000.
    EngineTimerWheel::new(16, 3000, 1000)
}

#[test]
fn new_wheel_schedules_both_engine_timers() {
    let w = wheel();
    assert_eq!(w.entries.len(), 2);
    assert_eq!(w.entries[0].key, TimerEntryKey::MainIdleTimer);
    assert_eq!(w.entries[0].next_due, 1016);
    assert_eq!(w.entries[1].key, TimerEntryKey::GarbageCollectTimer);
    assert_eq!(w.entries[1].next_due, 4000);
}

#[test]
fn next_expected_tick_is_the_earliest_due() {
    let w = wheel();
    assert_eq!(w.next_expected_tick_instant(), 1016);
}

#[test]
fn advance_before_anything_is_due_fires_nothing() {
    let mut w = wheel();
    let mut fired: Vec<TimerEntry> = Vec::new();
    w.advance(1010, &mut fired);
    assert!(fired.is_empty());
    assert_eq!(w.entries[0].next_due, 1016);
    assert_eq!(w.entries[1].next_due, 4000);
}

#[test]
fn advance_fires_each_due_entry_once_and_reschedules_by_its_period() {
    // With now at or past every due instant, each entry is returned exactly
    // once and rescheduled to its old due instant plus its own period.
    let mut w = wheel();
    let mut fired: Vec<TimerEntry> = Vec::new();
    w.advance(5000, &mut fired);
    assert_eq!(fired.len(), 2);
    assert_eq!(fired[0].key, TimerEntryKey::MainIdleTimer);
    assert_eq!(fired[0].next_due, 1016);
    assert_eq!(fired[1].key, TimerEntryKey::GarbageCollectTimer);
    assert_eq!(fired[1].next_due, 4000);
    assert_eq!(w.entries[0].next_due, 1032);
    assert_eq!(w.entries[1].next_due, 7000);
}

#[test]
fn advancing_at_the_cadence_gives_a_periodic_stream() {
    // Polling exactly at each next-expected instant: every idle tick fires
    // exactly once, none is missed, none is duplicated.
    let mut w = EngineTimerWheel::new(10, 1000, 0);
    let mut idle_firings: Vec<u64> = Vec::new();
    let mut now = w.next_expected_tick_instant();
    for _ in 0..5 {
        let mut fired: Vec<TimerEntry> = Vec::new();
        w.advance(now, &mut fired);
        for e in &fired {
            if e.key == TimerEntryKey::MainIdleTimer {
                idle_firings.push(e.next_due);
            }
        }
        now = w.next_expected_tick_instant();
    }
    assert_eq!(idle_firings, vec![10, 20, 30, 40, 50]);
}

#[test]
fn register_and_remove_plugin_timer() {
    let mut w = wheel();
    let key = TimerEntryKey::PluginRegisteredTimer { plugin_unique_id: 42, timer_id: 1 };
    w.register_entry(key, 100, 1000);
    assert_eq!(w.entries.len(), 3);
    assert_eq!(w.entries[2].key, key);
    assert_eq!(w.entries[2].next_due, 1100);

    w.remove_entry(key);
    assert_eq!(w.entries.len(), 2);
    assert!(w.entries.iter().all(|e| e.key != key));
}

#[test]
fn reset_removes_only_plugin_timers() {
    let mut w = wheel();
    w.register_entry(
        TimerEntryKey::PluginRegisteredTimer { plugin_unique_id: 1, timer_id: 0 },
        50,
        1000,
    );
    w.register_entry(
        TimerEntryKey::PluginRegisteredTimer { plugin_unique_id: 2, timer_id: 0 },
        60,
        1000,
    );
    w.reset();
    assert_eq!(w.entries.len(), 2);
    assert_eq!(w.entries[0].key, TimerEntryKey::MainIdleTimer);
    assert_eq!(w.entries[1].key, TimerEntryKey::GarbageCollectTimer);
}

#[test]
fn late_poll_fires_an_entry_only_once() {
    // Even when the poll comes long after the due instant, one advance fires
    // the entry once; the missed time is not replayed.
    let mut w = EngineTimerWheel::new(10, 10000, 0);
    let mut fired: Vec<TimerEntry> = Vec::new();
    w.advance(95, &mut fired);
    let idle_count = fired.iter().filter(|e| e.key == TimerEntryKey::MainIdleTimer).count();
    assert_eq!(idle_count, 1);
    assert_eq!(w.entries[0].next_due, 20);
}
