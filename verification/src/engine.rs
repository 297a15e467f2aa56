//! The control-context engine: activation, deactivation, timer polling and
//! deferred collection.
//!
//! The engine owns the timer wheel and the deferred collector, and tracks the
//! activated state — the live graph resources and the current schedule
//! version. Building and editing the graph itself belongs to the external
//! graph compiler; the engine only accounts for the resources an activation
//! holds and publishes schedule versions.

use vstd::prelude::*;

use crate::collector::DeferredCollector;
use crate::timer_wheel::{
    advanced_entry, engine_entries_only, fired_entries, EngineTimerWheel, TimerEntry,
    TimerEntryKey, MAX_TIMER_INSTANT, MAX_TIMER_PERIOD,
};

verus! {

use crate::timer_wheel::DEFAULT_GARBAGE_COLLECT_INTERVAL_MS;
use crate::timer_wheel::DEFAULT_IDLE_INTERVAL_MS;

/// Settings of the engine itself, independent of any activation.
#[derive(Clone, Copy, PartialEq, Eq, Debug, Structural)]
pub struct EngineSettings {
    /// Period of the idle maintenance timer, in milliseconds.
    pub main_idle_interval_ms: u32,
    /// Period of the collection timer, in milliseconds.
    pub garbage_collect_interval_ms: u32,
}

impl Default for EngineSettings {
    fn default() -> (r: Self)
        ensures
            r.main_idle_interval_ms == DEFAULT_IDLE_INTERVAL_MS,
            r.garbage_collect_interval_ms == DEFAULT_GARBAGE_COLLECT_INTERVAL_MS,
    {
        EngineSettings {
            main_idle_interval_ms: DEFAULT_IDLE_INTERVAL_MS,
            garbage_collect_interval_ms: DEFAULT_GARBAGE_COLLECT_INTERVAL_MS,
        }
    }
}

/// Settings of one activation.
#[derive(Clone, Copy, PartialEq, Eq, Debug, Structural)]
pub struct ActivateEngineSettings {
    /// Sample rate of the project, in frames per second.
    pub sample_rate: u32,
    /// Smallest number of frames one cycle may process.
    pub min_frames: u32,
    /// Largest number of frames one cycle may process.
    pub max_frames: u32,
    /// Input audio channels into the graph.
    pub num_audio_in_channels: u16,
    /// Output audio channels out of the graph.
    pub num_audio_out_channels: u16,
    /// Pre-allocated capacity of note buffers.
    pub note_buffer_size: usize,
    /// Pre-allocated capacity of parameter-event buffers.
    pub event_buffer_size: usize,
    /// Length of the transport declick window in frames; zero disables it.
    pub transport_declick_frames: u32,
}

impl Default for ActivateEngineSettings {
    fn default() -> (r: Self)
        ensures
            r == (ActivateEngineSettings {
                sample_rate: 44100u32,
                min_frames: 1u32,
                max_frames: 512u32,
                num_audio_in_channels: 2u16,
                num_audio_out_channels: 2u16,
                note_buffer_size: 256usize,
                event_buffer_size: 256usize,
                transport_declick_frames: 0u32,
            }),
    {
        ActivateEngineSettings {
            sample_rate: 44100,
            min_frames: 1,
            max_frames: 512,
            num_audio_in_channels: 2,
            num_audio_out_channels: 2,
            note_buffer_size: 256,
            event_buffer_size: 256,
            transport_declick_frames: 0,
        }
    }
}

/// What an activation reports back to the caller.
#[derive(Clone, Copy, PartialEq, Eq, Debug, Structural)]
pub struct ActivatedEngineInfo {
    /// Id of the graph's input node; connect plugins to system inputs here.
    pub graph_in_id: u64,
    /// Id of the graph's output node; connect plugins to system outputs here.
    pub graph_out_id: u64,
    pub sample_rate: u32,
    pub min_frames: u32,
    pub max_frames: u32,
    pub num_audio_in_channels: u16,
    pub num_audio_out_channels: u16,
}

/// Why the engine tore itself down.
#[derive(Clone, PartialEq, Eq, Debug)]
pub enum EngineCrashError {
    /// The graph compiler rejected the graph.
    CompilerError(String),
    /// A plugin failed so badly the whole graph was dropped.
    PluginCrashed(String),
}

impl EngineCrashError {
    /// A short description for logs and user messages: exactly the message
    /// the variant carries.
    pub fn message(&self) -> (r: String)
        ensures
            self matches EngineCrashError::CompilerError(m) ==> r@ == m@,
            self matches EngineCrashError::PluginCrashed(m) ==> r@ == m@,
    {
        match self {
            EngineCrashError::CompilerError(m) => m.clone(),
            EngineCrashError::PluginCrashed(m) => m.clone(),
        }
    }
}

/// Why a new plugin instance could not be created.
#[derive(Clone, PartialEq, Eq, Debug)]
pub enum NewPluginInstanceError {
    /// No scanned plugin carries the requested key.
    NotFound(String),
    /// The plugin's factory refused to create the instance.
    InstantiationFailed(String),
}

/// Why a plugin instance could not be activated.
#[derive(Clone, PartialEq, Eq, Debug)]
pub enum ActivatePluginError {
    /// The instance never loaded.
    NotLoaded,
    /// The instance is already active.
    AlreadyActive,
    /// The plugin itself refused with this message.
    PluginSpecific(String),
}

/// Sent whenever the engine has become deactivated, whether gracefully or
/// because of a crash.
#[derive(Clone, PartialEq, Eq, Debug)]
pub enum EngineDeactivatedStatus {
    /// The engine was deactivated on request.
    DeactivatedGracefully,
    /// The engine has crashed.
    EngineCrashed(Box<EngineCrashError>),
}

/// What a plugin's activation changed.
#[derive(Clone, PartialEq, Eq, Debug)]
pub struct PluginActivatedStatus {
    /// The plugin updated its list of audio ports.
    pub has_new_audio_ports_ext: bool,
    /// The plugin updated its list of note ports.
    pub has_new_note_ports_ext: bool,
    /// The plugin changed its latency.
    pub has_new_latency: bool,
    /// Edges removed because the plugin removed some of its ports.
    pub removed_edges: Vec<u64>,
    /// Activating this plugin caused the graph to recompile.
    pub caused_recompile: bool,
}

/// The outcome of loading one plugin instance.
#[derive(Clone, PartialEq, Eq, Debug)]
pub enum PluginStatus {
    /// The plugin activated and returned its new configuration.
    Activated(PluginActivatedStatus),
    /// The plugin loaded but did not activate yet.
    Inactive,
    /// The plugin failed to load.
    LoadError(NewPluginInstanceError),
    /// The plugin loaded but failed to activate.
    ActivationError(ActivatePluginError),
}

/// What the periodic timer callback reports to the application.
#[derive(Clone, PartialEq, Eq, Debug)]
pub enum OnIdleEvent {
    /// The engine has become deactivated, gracefully or by a crash.
    EngineDeactivated(EngineDeactivatedStatus),
}

/// The resources one activation holds.
struct ActivatedState {
    /// Plugin instances currently alive in the graph.
    num_plugins: usize,
    /// Shared buffers allocated for the graph's input and output nodes.
    allocated_buffers: usize,
    /// Version of the most recently published schedule.
    schedule_version: u64,
}

/// The control-context half of the engine.
pub struct DSEngineMainThread {
    activated_state: Option<ActivatedState>,
    timer_wheel: EngineTimerWheel,
    collector: DeferredCollector,
    crash_msg: Option<EngineCrashError>,
}

impl DSEngineMainThread {
    pub closed spec fn spec_is_activated(&self) -> bool {
        self.activated_state is Some
    }

    /// Plugin instances alive in the current activation; zero when inactive.
    pub closed spec fn live_plugin_count(&self) -> int {
        match self.activated_state {
            Some(a) => a.num_plugins as int,
            None => 0,
        }
    }

    /// Buffers the current activation holds; zero when inactive.
    pub closed spec fn activation_allocs(&self) -> int {
        match self.activated_state {
            Some(a) => a.allocated_buffers as int,
            None => 0,
        }
    }

    /// Version of the most recently published schedule; zero when inactive.
    pub closed spec fn spec_schedule_version(&self) -> int {
        match self.activated_state {
            Some(a) => a.schedule_version as int,
            None => 0,
        }
    }

    pub closed spec fn live_allocs(&self) -> int {
        self.collector.live_allocs()
    }

    pub closed spec fn pending_drop(&self) -> int {
        self.collector.pending_drop()
    }

    pub closed spec fn wheel(&self) -> EngineTimerWheel {
        self.timer_wheel
    }

    pub closed spec fn crash_message(&self) -> Option<EngineCrashError> {
        self.crash_msg
    }

    /// The collector's books cover the activation's resources, and the timer
    /// wheel is sane and never empty.
    pub open spec fn wf(&self) -> bool {
        &&& self.wheel().wf()
        &&& self.wheel().has_key(TimerEntryKey::MainIdleTimer)
        &&& self.wheel().has_key(TimerEntryKey::GarbageCollectTimer)
        &&& self.wheel().entries@.len() >= 1
        &&& 0 <= self.pending_drop() <= self.live_allocs() <= usize::MAX
        &&& self.live_plugin_count() >= 0
        &&& self.activation_allocs() >= 0
        &&& self.pending_drop() + self.live_plugin_count() + self.activation_allocs()
            <= self.live_allocs()
    }

    /// A fresh, deactivated engine, and the first instant `on_timer` must be
    /// called.
    pub fn new(settings: EngineSettings, now: u64) -> (r: (Self, u64))
        requires
            settings.main_idle_interval_ms >= 1,
            settings.garbage_collect_interval_ms >= 1,
            now < MAX_TIMER_INSTANT - MAX_TIMER_PERIOD,
        ensures
            r.0.wf(),
            !r.0.spec_is_activated(),
            r.0.live_allocs() == 0,
            r.0.pending_drop() == 0,
            r.0.crash_message() is None,
            r.0.wheel().entries@.len() == 2,
            r.0.wheel().entries@[0] == (TimerEntry {
                key: TimerEntryKey::MainIdleTimer,
                period: settings.main_idle_interval_ms as u64,
                next_due: (now + settings.main_idle_interval_ms) as u64,
            }),
            r.0.wheel().entries@[1] == (TimerEntry {
                key: TimerEntryKey::GarbageCollectTimer,
                period: settings.garbage_collect_interval_ms as u64,
                next_due: (now + settings.garbage_collect_interval_ms) as u64,
            }),
            forall|i: int|
                0 <= i < r.0.wheel().entries@.len() ==> r.1 <= (
                #[trigger] r.0.wheel().entries@[i]).next_due,
            exists|i: int|
                0 <= i < r.0.wheel().entries@.len() && r.1 == (
                #[trigger] r.0.wheel().entries@[i]).next_due,
    {
        let timer_wheel = EngineTimerWheel::new(
            settings.main_idle_interval_ms,
            settings.garbage_collect_interval_ms,
            now,
        );
        let next = timer_wheel.next_expected_tick_instant();
        (
            DSEngineMainThread {
                activated_state: None,
                timer_wheel,
                collector: DeferredCollector::new(),
                crash_msg: None,
            },
            next,
        )
    }

    /// How many shared allocations still exist; what the collection pass
    /// works down.
    pub fn alloc_count(&self) -> (r: usize)
        ensures
            r == self.live_allocs(),
    {
        self.collector.alloc_count()
    }

    pub fn is_activated(&self) -> (r: bool)
        ensures
            r == self.spec_is_activated(),
    {
        self.activated_state.is_some()
    }

    /// Activates the engine: allocates the graph's input and output buffers
    /// and publishes the first schedule. Returns `None` if the engine is
    /// already activated.
    pub fn activate_engine(&mut self, settings: ActivateEngineSettings) -> (r: Option<
        ActivatedEngineInfo,
    >)
        requires
            old(self).wf(),
            old(self).live_allocs() + settings.num_audio_in_channels
                + settings.num_audio_out_channels <= usize::MAX,
        ensures
            final(self).wf(),
            r is Some <==> !old(self).spec_is_activated(),
            old(self).spec_is_activated() ==> *final(self) == *old(self),
            !old(self).spec_is_activated() ==> {
                &&& final(self).spec_is_activated()
                &&& final(self).live_plugin_count() == 0
                &&& final(self).activation_allocs() == settings.num_audio_in_channels
                    + settings.num_audio_out_channels
                &&& final(self).live_allocs() == old(self).live_allocs()
                    + settings.num_audio_in_channels + settings.num_audio_out_channels
                &&& final(self).pending_drop() == old(self).pending_drop()
                &&& final(self).spec_schedule_version() == 1
                &&& final(self).wheel() == old(self).wheel()
                &&& final(self).crash_message() == old(self).crash_message()
                &&& (r matches Some(info) && info.sample_rate == settings.sample_rate
                    && info.min_frames == settings.min_frames && info.max_frames
                    == settings.max_frames && info.num_audio_in_channels
                    == settings.num_audio_in_channels && info.num_audio_out_channels
                    == settings.num_audio_out_channels)
            },
    {
        if self.activated_state.is_some() {
            return None;
        }
        let allocs = settings.num_audio_in_channels as usize
            + settings.num_audio_out_channels as usize;
        self.collector.allocate(allocs);
        self.activated_state = Some(
            ActivatedState { num_plugins: 0, allocated_buffers: allocs, schedule_version: 1 },
        );
        Some(
            ActivatedEngineInfo {
                graph_in_id: 0,
                graph_out_id: 1,
                sample_rate: settings.sample_rate,
                min_frames: settings.min_frames,
                max_frames: settings.max_frames,
                num_audio_in_channels: settings.num_audio_in_channels,
                num_audio_out_channels: settings.num_audio_out_channels,
            },
        )
    }

    /// Publishes a new schedule: the replacement carries a version one
    /// greater than the previous, so processors compiled into the old
    /// schedule freeze until the new one reaches the audio context. Returns
    /// the new version, or `None` when the engine is deactivated.
    pub fn publish_new_schedule(&mut self) -> (r: Option<u64>)
        requires
            old(self).wf(),
            old(self).spec_schedule_version() < u64::MAX,
        ensures
            final(self).wf(),
            r is Some <==> old(self).spec_is_activated(),
            !old(self).spec_is_activated() ==> *final(self) == *old(self),
            old(self).spec_is_activated() ==> {
                &&& final(self).spec_schedule_version() == old(self).spec_schedule_version() + 1
                &&& (r matches Some(v) && v as int == old(self).spec_schedule_version() + 1)
                &&& final(self).spec_is_activated()
                &&& final(self).live_plugin_count() == old(self).live_plugin_count()
                &&& final(self).activation_allocs() == old(self).activation_allocs()
                &&& final(self).live_allocs() == old(self).live_allocs()
                &&& final(self).pending_drop() == old(self).pending_drop()
                &&& final(self).wheel() == old(self).wheel()
                &&& final(self).crash_message() == old(self).crash_message()
            },
    {
        match &mut self.activated_state {
            Some(a) => {
                a.schedule_version = a.schedule_version + 1;
                Some(a.schedule_version)
            },
            None => None,
        }
    }

    /// Gracefully deactivates the engine: releases every resource the
    /// activation held, removes the per-plugin timers, forgets any pending
    /// crash, and runs a collection pass. Returns `false` if the engine was
    /// already deactivated.
    pub fn deactivate_engine(&mut self) -> (r: bool)
        requires
            old(self).wf(),
        ensures
            final(self).wf(),
            r == old(self).spec_is_activated(),
            !old(self).spec_is_activated() ==> *final(self) == *old(self),
            old(self).spec_is_activated() ==> {
                &&& !final(self).spec_is_activated()
                &&& final(self).live_plugin_count() == 0
                &&& final(self).activation_allocs() == 0
                &&& final(self).pending_drop() == 0
                &&& final(self).live_allocs() == old(self).live_allocs() - old(self).pending_drop() - old(self).live_plugin_count() - old(self).activation_allocs()
                &&& final(self).crash_message() is None
                &&& final(self).wheel().entries@ == engine_entries_only(old(self).wheel().entries@)
            },
    {
        let activated = match &self.activated_state {
            Some(a) => Some((a.num_plugins, a.allocated_buffers)),
            None => None,
        };
        match activated {
            None => false,
            Some((num_plugins, allocated_buffers)) => {
                self.activated_state = None;
                // Every plugin instance and every graph buffer loses its last
                // reference when the activated graph is torn down.
                self.collector.release(num_plugins + allocated_buffers);
                self.timer_wheel.reset();
                proof {
                    crate::timer_wheel::lemma_engine_only_has_key(
                        old(self).wheel().entries@,
                        TimerEntryKey::MainIdleTimer,
                    );
                    crate::timer_wheel::lemma_engine_only_has_key(
                        old(self).wheel().entries@,
                        TimerEntryKey::GarbageCollectTimer,
                    );
                }
                self.crash_msg = None;
                self.collector.collect();
                true
            },
        }
    }

    /// The periodic control-side callback: delivers a pending crash —
    /// tearing down the active graph state it reports as gone, so the caller
    /// can restore from a last-known-good configuration — then advances the
    /// timer wheel and runs whatever the fired timers drive, here the
    /// collection pass. Returns the events and the next instant this method
    /// must be called.
    #[verifier::rlimit(60)]
    pub fn on_timer(&mut self, now: u64) -> (r: (Vec<OnIdleEvent>, u64))
        requires
            old(self).wf(),
            now < MAX_TIMER_INSTANT - MAX_TIMER_PERIOD,
        ensures
            final(self).wf(),
            final(self).crash_message() is None,
            r.0@.len() == (if old(self).crash_message() is Some {
                1int
            } else {
                0int
            }),
            old(self).crash_message() matches Some(msg) ==> (r.0@[0] matches OnIdleEvent::EngineDeactivated(
                status,
            ) && status matches EngineDeactivatedStatus::EngineCrashed(boxed) && *boxed == msg),
            // No crash pending: the activation is untouched, the wheel is
            // advanced in place, and a fired collection timer empties the
            // pending list.
            old(self).crash_message() is None ==> {
                &&& final(self).wheel().entries@.len() == old(self).wheel().entries@.len()
                &&& forall|i: int|
                    0 <= i < old(self).wheel().entries@.len() ==> final(self).wheel().entries@[i]
                        == advanced_entry(#[trigger] old(self).wheel().entries@[i], now)
                &&& final(self).spec_is_activated() == old(self).spec_is_activated()
                &&& final(self).live_plugin_count() == old(self).live_plugin_count()
                &&& final(self).activation_allocs() == old(self).activation_allocs()
                &&& final(self).spec_schedule_version() == old(self).spec_schedule_version()
                &&& ((exists|i: int|
                    0 <= i < old(self).wheel().entries@.len() && (#[trigger] old(
                        self,
                    ).wheel().entries@[i]).key == TimerEntryKey::GarbageCollectTimer && old(
                        self,
                    ).wheel().entries@[i].next_due <= now) ==> {
                    &&& final(self).pending_drop() == 0
                    &&& final(self).live_allocs() == old(self).live_allocs() - old(
                        self,
                    ).pending_drop()
                })
                &&& ((!exists|i: int|
                    0 <= i < old(self).wheel().entries@.len() && (#[trigger] old(
                        self,
                    ).wheel().entries@[i]).key == TimerEntryKey::GarbageCollectTimer && old(
                        self,
                    ).wheel().entries@[i].next_due <= now) ==> {
                    &&& final(self).pending_drop() == old(self).pending_drop()
                    &&& final(self).live_allocs() == old(self).live_allocs()
                })
            },
            // A pending crash is delivered together with the teardown of the
            // active graph state: the activation's resources are released and
            // reclaimed, and the per-plugin timers leave the advanced wheel.
            old(self).crash_message() is Some ==> {
                &&& !final(self).spec_is_activated()
                &&& final(self).live_plugin_count() == 0
                &&& final(self).activation_allocs() == 0
                &&& final(self).pending_drop() == 0
                &&& final(self).live_allocs() == old(self).live_allocs() - old(
                    self,
                ).pending_drop() - old(self).live_plugin_count() - old(self).activation_allocs()
                &&& final(self).wheel().entries@ == engine_entries_only(
                    old(self).wheel().entries@.map_values(
                        |e: TimerEntry| advanced_entry(e, now),
                    ),
                )
            },
            forall|i: int|
                0 <= i < final(self).wheel().entries@.len() ==> r.1 <= (#[trigger] final(self).wheel().entries@[i]).next_due,
            exists|i: int|
                0 <= i < final(self).wheel().entries@.len() && r.1 == (#[trigger] final(self).wheel().entries@[i]).next_due,
    {
        let mut events_out: Vec<OnIdleEvent> = Vec::new();
        let crash = self.crash_msg.take();
        let crash_pending = crash.is_some();
        if let Some(msg) = crash {
            events_out.push(
                OnIdleEvent::EngineDeactivated(
                    EngineDeactivatedStatus::EngineCrashed(Box::new(msg)),
                ),
            );
        }

        let mut elapsed: Vec<TimerEntry> = Vec::new();
        self.timer_wheel.advance(now, &mut elapsed);
        let ghost advanced = old(self).wheel().entries@.map_values(
            |e: TimerEntry| advanced_entry(e, now),
        );
        proof {
            assert(self.timer_wheel.entries@ =~= advanced);
        }

        let mut do_collect = false;
        let n = elapsed.len();
        let mut i: usize = 0;
        while i < n
            invariant
                i <= n,
                n == elapsed@.len(),
                do_collect == exists|k: int|
                    0 <= k < i && (#[trigger] elapsed@[k]).key
                        == TimerEntryKey::GarbageCollectTimer,
            decreases n - i,
        {
            let e = elapsed[i];
            match e.key {
                TimerEntryKey::MainIdleTimer => {
                    // Idle graph maintenance belongs to the graph compiler's
                    // side and happens outside this core.
                },
                TimerEntryKey::GarbageCollectTimer => {
                    do_collect = true;
                },
                TimerEntryKey::PluginRegisteredTimer { .. } => {
                    // Forwarded to the plugin's own main-thread callback,
                    // outside this core.
                },
            }
            i = i + 1;
        }

        if crash_pending {
            // The crash invalidated the active graph: drop it and have the
            // caller restore from the last working configuration.
            let activated = match &self.activated_state {
                Some(a) => Some((a.num_plugins, a.allocated_buffers)),
                None => None,
            };
            if let Some((num_plugins, allocated_buffers)) = activated {
                self.activated_state = None;
                self.collector.release(num_plugins + allocated_buffers);
            }
            self.timer_wheel.reset();
            proof {
                assert(exists|k: int|
                    0 <= k < advanced.len() && (#[trigger] advanced[k]).key
                        == TimerEntryKey::MainIdleTimer) by {
                    let k = choose|k: int|
                        0 <= k < old(self).wheel().entries@.len() && (#[trigger] old(
                            self,
                        ).wheel().entries@[k]).key == TimerEntryKey::MainIdleTimer;
                    assert(advanced[k].key == TimerEntryKey::MainIdleTimer);
                }
                assert(exists|k: int|
                    0 <= k < advanced.len() && (#[trigger] advanced[k]).key
                        == TimerEntryKey::GarbageCollectTimer) by {
                    let k = choose|k: int|
                        0 <= k < old(self).wheel().entries@.len() && (#[trigger] old(
                            self,
                        ).wheel().entries@[k]).key == TimerEntryKey::GarbageCollectTimer;
                    assert(advanced[k].key == TimerEntryKey::GarbageCollectTimer);
                }
                crate::timer_wheel::lemma_engine_only_has_key(
                    advanced,
                    TimerEntryKey::MainIdleTimer,
                );
                crate::timer_wheel::lemma_engine_only_has_key(
                    advanced,
                    TimerEntryKey::GarbageCollectTimer,
                );
            }
            self.collector.collect();
        } else if do_collect {
            self.collector.collect();
        }
        proof {
            lemma_fired_has_key(
                old(self).wheel().entries@,
                now,
                TimerEntryKey::GarbageCollectTimer,
            );
        }
        let next_timer_instant = self.timer_wheel.next_expected_tick_instant();
        (events_out, next_timer_instant)
    }

    /// Records a crash surfaced from the audio context; the next `on_timer`
    /// callback reports it.
    pub fn record_crash(&mut self, msg: EngineCrashError)
        requires
            old(self).wf(),
        ensures
            final(self).wf(),
            final(self).crash_message() == Some(msg),
            final(self).spec_is_activated() == old(self).spec_is_activated(),
            final(self).live_allocs() == old(self).live_allocs(),
            final(self).pending_drop() == old(self).pending_drop(),
    {
        self.crash_msg = Some(msg);
    }
}

/// A key is among the fired entries exactly when some due entry carries it:
/// connects the fired list the advance pass returns to the registered
/// entries.
proof fn lemma_fired_has_key(entries: Seq<TimerEntry>, now: u64, key: TimerEntryKey)
    ensures
        (exists|k: int|
            0 <= k < fired_entries(entries, now).len() && (#[trigger] fired_entries(
                entries,
                now,
            )[k]).key == key) <==> (exists|i: int|
            0 <= i < entries.len() && (#[trigger] entries[i]).key == key
                && entries[i].next_due <= now),
    decreases entries.len(),
{
    if entries.len() > 0 {
        lemma_fired_has_key(entries.drop_last(), now, key);
        let fe = fired_entries(entries, now);
        let fr = fired_entries(entries.drop_last(), now);
        let last = entries[entries.len() - 1];
        if exists|k: int| 0 <= k < fe.len() && (#[trigger] fe[k]).key == key {
            let k = choose|k: int| 0 <= k < fe.len() && (#[trigger] fe[k]).key == key;
            if last.next_due <= now && k == fe.len() - 1 {
                assert(entries[entries.len() - 1].key == key && entries[entries.len()
                    - 1].next_due <= now);
            } else {
                assert(fe[k] == fr[k]);
                assert(exists|k2: int|
                    0 <= k2 < fr.len() && (#[trigger] fr[k2]).key == key);
                let i = choose|i: int|
                    0 <= i < entries.drop_last().len() && (#[trigger] entries.drop_last()[i]).key
                        == key && entries.drop_last()[i].next_due <= now;
                assert(entries[i].key == key && entries[i].next_due <= now);
            }
        }
        if exists|i: int|
            0 <= i < entries.len() && (#[trigger] entries[i]).key == key && entries[i].next_due
                <= now {
            let i = choose|i: int|
                0 <= i < entries.len() && (#[trigger] entries[i]).key == key
                    && entries[i].next_due <= now;
            if i == entries.len() - 1 {
                assert((fe[fe.len() - 1]).key == key);
            } else {
                assert(entries.drop_last()[i].key == key && entries.drop_last()[i].next_due
                    <= now);
                assert(exists|i2: int|
                    0 <= i2 < entries.drop_last().len() && (#[trigger] entries.drop_last()[i2]).key
                        == key && entries.drop_last()[i2].next_due <= now);
                let k = choose|k: int| 0 <= k < fr.len() && (#[trigger] fr[k]).key == key;
                if last.next_due <= now {
                    assert(fe[k] == fr[k]);
                } else {
                    assert(fe[k] == fr[k]);
                }
                assert((fe[k]).key == key);
            }
        }
    }
}

/// Activating a fresh engine and then immediately deactivating it, before
/// any cycle runs, leaves no live plugin instance and no outstanding shared
/// allocation once the deactivation's collection pass has run. The three
/// engine values are the fresh engine, the engine after a successful
/// activation, and the engine after the deactivation; the premises are what
/// `new`, `activate_engine` and `deactivate_engine` ensure.
pub proof fn lemma_activate_deactivate_reclaims_all(
    e0: DSEngineMainThread,
    e1: DSEngineMainThread,
    e2: DSEngineMainThread,
    settings: ActivateEngineSettings,
)
    requires
        !e0.spec_is_activated(),
        e0.live_allocs() == 0,
        e0.pending_drop() == 0,
        e1.spec_is_activated(),
        e1.live_plugin_count() == 0,
        e1.activation_allocs() == settings.num_audio_in_channels
            + settings.num_audio_out_channels,
        e1.live_allocs() == e0.live_allocs() + settings.num_audio_in_channels
            + settings.num_audio_out_channels,
        e1.pending_drop() == e0.pending_drop(),
        !e2.spec_is_activated(),
        e2.live_plugin_count() == 0,
        e2.pending_drop() == 0,
        e2.live_allocs() == e1.live_allocs() - e1.pending_drop() - e1.live_plugin_count()
            - e1.activation_allocs(),
    ensures
        e2.live_allocs() == 0,
        e2.live_plugin_count() == 0,
        e2.pending_drop() == 0,
{
}

} // verus!
