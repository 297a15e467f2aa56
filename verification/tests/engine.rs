use dropseed::collector::DeferredCollector;
use dropseed::engine::{
    ActivateEngineSettings, ActivatePluginError, DSEngineMainThread, EngineCrashError,
    EngineDeactivatedStatus, EngineSettings, NewPluginInstanceError, OnIdleEvent,
    PluginActivatedStatus, PluginStatus,
};

fn engine() -> DSEngineMainThread {
    let (engine, first_tick) = DSEngineMainThread::new(EngineSettings::default(), 0);
    assert_eq!(first_tick, 16);
    engine
}

#[test]
fn fresh_engine_is_deactivated_with_no_allocations() {
    let e = engine();
    assert!(!e.is_activated());
}

#[test]
fn activate_allocates_graph_buffers() {
    let mut e = engine();
    let info = e.activate_engine(ActivateEngineSettings::default());
    let info = info.expect("fresh engine must activate");
    assert!(e.is_activated());
    assert_eq!(info.sample_rate, 44100);
    assert_eq!(info.min_frames, 1);
    assert_eq!(info.max_frames, 512);
    assert_eq!(info.num_audio_in_channels, 2);
    assert_eq!(info.num_audio_out_channels, 2);
}

#[test]
fn double_activation_is_refused() {
    let mut e = engine();
    assert!(e.activate_engine(ActivateEngineSettings::default()).is_some());
    assert!(e.activate_engine(ActivateEngineSettings::default()).is_none());
}

#[test]
fn deactivating_a_deactivated_engine_reports_false() {
    let mut e = engine();
    assert!(!e.deactivate_engine());
}

#[test]
fn activate_then_deactivate_reclaims_everything() {
    // Activating then immediately deactivating, before any cycle runs,
    // leaves zero live plugin instances and zero outstanding shared-buffer
    // allocations after the deactivation's collection pass.
    let mut e = engine();
    assert!(e.activate_engine(ActivateEngineSettings::default()).is_some());
    assert!(e.deactivate_engine());
    assert!(!e.is_activated());
    // Reactivating from scratch works, which only holds when the previous
    // activation's books were fully settled.
    assert!(e.activate_engine(ActivateEngineSettings::default()).is_some());
}

#[test]
fn collector_books_follow_the_deferred_protocol() {
    let mut c = DeferredCollector::new();
    assert_eq!(c.alloc_count(), 0);
    c.allocate(4);
    assert_eq!(c.alloc_count(), 4);
    // Dropping the last reference does not free anything yet.
    c.release(3);
    assert_eq!(c.alloc_count(), 4);
    // The collection pass reclaims exactly the pending allocations.
    c.collect();
    assert_eq!(c.alloc_count(), 1);
}

#[test]
fn publish_new_schedule_bumps_the_version() {
    let mut e = engine();
    assert_eq!(e.publish_new_schedule(), None);
    e.activate_engine(ActivateEngineSettings::default());
    // Activation published version 1.
    assert_eq!(e.publish_new_schedule(), Some(2));
    assert_eq!(e.publish_new_schedule(), Some(3));
}

#[test]
fn on_timer_reports_a_recorded_crash_once() {
    let mut e = engine();
    e.record_crash(EngineCrashError::CompilerError("cycle in graph".to_string()));
    let (events, _next) = e.on_timer(20);
    assert_eq!(events.len(), 1);
    match &events[0] {
        OnIdleEvent::EngineDeactivated(EngineDeactivatedStatus::EngineCrashed(err)) => {
            assert_eq!(err.message(), "cycle in graph");
        }
        other => panic!("unexpected event {other:?}"),
    }
    let (events, _next) = e.on_timer(40);
    assert!(events.is_empty());
}

#[test]
fn crash_delivery_tears_down_the_activation() {
    // A catastrophic failure is handled by the next periodic callback, which
    // tears down the active graph state: the caller must restore from a
    // last-known-good configuration.
    let mut e = engine();
    e.activate_engine(ActivateEngineSettings::default());
    assert_eq!(e.alloc_count(), 4);
    e.record_crash(EngineCrashError::PluginCrashed("plugin misbehaved".to_string()));
    let (events, _next) = e.on_timer(20);
    assert_eq!(events.len(), 1);
    assert!(matches!(
        events[0],
        OnIdleEvent::EngineDeactivated(EngineDeactivatedStatus::EngineCrashed(_))
    ));
    assert!(!e.is_activated());
    assert_eq!(e.alloc_count(), 0);
    // The engine can be activated again from a restored configuration.
    assert!(e.activate_engine(ActivateEngineSettings::default()).is_some());
}

#[test]
fn on_timer_returns_the_next_poll_instant() {
    let mut e = engine();
    let (_, next) = e.on_timer(16);
    assert_eq!(next, 32);
}

#[test]
fn engine_settings_default_matches_the_documented_intervals() {
    let s = EngineSettings::default();
    assert_eq!(s.main_idle_interval_ms, 16);
    assert_eq!(s.garbage_collect_interval_ms, 3000);
}

#[test]
fn error_variants_carry_their_messages() {
    let crash = EngineCrashError::PluginCrashed("segfault in plugin".to_string());
    assert_eq!(crash.message(), "segfault in plugin");

    let load = NewPluginInstanceError::NotFound("org.example.missing".to_string());
    assert!(matches!(load, NewPluginInstanceError::NotFound(_)));
    let load2 = NewPluginInstanceError::InstantiationFailed("factory refused".to_string());
    assert!(matches!(load2, NewPluginInstanceError::InstantiationFailed(_)));

    let act = ActivatePluginError::NotLoaded;
    assert!(matches!(act, ActivatePluginError::NotLoaded));
    assert!(matches!(ActivatePluginError::AlreadyActive, ActivatePluginError::AlreadyActive));
    let act2 = ActivatePluginError::PluginSpecific("bad sample rate".to_string());
    assert!(matches!(act2, ActivatePluginError::PluginSpecific(_)));

    let status = PluginStatus::ActivationError(ActivatePluginError::NotLoaded);
    assert!(matches!(status, PluginStatus::ActivationError(_)));
    let activated = PluginStatus::Activated(PluginActivatedStatus {
        has_new_audio_ports_ext: false,
        has_new_note_ports_ext: false,
        has_new_latency: false,
        removed_edges: vec![],
        caused_recompile: true,
    });
    assert!(matches!(activated, PluginStatus::Activated(_)));
    assert!(matches!(PluginStatus::Inactive, PluginStatus::Inactive));
}

#[test]
fn alloc_count_tracks_activation_buffers() {
    let mut e = engine();
    assert_eq!(e.alloc_count(), 0);
    e.activate_engine(ActivateEngineSettings::default());
    // Two input channels and two output channels were allocated.
    assert_eq!(e.alloc_count(), 4);
    e.deactivate_engine();
    assert_eq!(e.alloc_count(), 0);
}
