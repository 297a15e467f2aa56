//! Coordination state shared between the control context and the audio
//! context for one plugin instance.
//!
//! In the running host the active state, bypass flag and process-request flag
//! live in lock-free atomic cells, and the parameter values travel over
//! single-producer/single-consumer queues. The state machine itself is what
//! matters here: the shell wraps these plain fields in atomics.

use vstd::prelude::*;

use crate::events::{AutomationIoEvent, PluginIoEvent};

verus! {

/// The only channel through which the control context asks a plugin to stop
/// being processed. The audio context observes it once per cycle and, on
/// `WaitingToDrop`, performs the teardown itself before signaling completion
/// by leaving `DroppedAndReadyToDeactivate`.
#[derive(Clone, Copy, PartialEq, Eq, Debug, Structural)]
pub enum PluginActiveState {
    /// The plugin is not processing.
    Inactive,
    /// The plugin's processor runs in the schedule.
    Active,
    /// The control context asked the audio context to drop the processor.
    WaitingToDrop,
    /// The audio context dropped the processor; the control context may now
    /// deactivate the plugin.
    DroppedAndReadyToDeactivate,
}

/// The shared state cell both contexts read; only the control context and
/// the audio context's own drop path write it.
pub struct SharedPluginState {
    pub active_state: PluginActiveState,
    pub bypassed: bool,
    pub process_requested: bool,
}

impl SharedPluginState {
    pub fn new() -> (r: Self)
        ensures
            r.active_state == PluginActiveState::Inactive,
            !r.bypassed,
            !r.process_requested,
    {
        SharedPluginState {
            active_state: PluginActiveState::Inactive,
            bypassed: false,
            process_requested: false,
        }
    }

    pub fn get_active_state(&self) -> (r: PluginActiveState)
        ensures
            r == self.active_state,
    {
        self.active_state
    }

    pub fn set_active_state(&mut self, state: PluginActiveState)
        ensures
            final(self).active_state == state,
            final(self).bypassed == old(self).bypassed,
            final(self).process_requested == old(self).process_requested,
    {
        self.active_state = state;
    }

    pub fn bypassed(&self) -> (r: bool)
        ensures
            r == self.bypassed,
    {
        self.bypassed
    }

    pub fn set_bypassed(&mut self, bypassed: bool)
        ensures
            final(self).active_state == old(self).active_state,
            final(self).bypassed == bypassed,
            final(self).process_requested == old(self).process_requested,
    {
        self.bypassed = bypassed;
    }

    pub fn process_requested(&self) -> (r: bool)
        ensures
            r == self.process_requested,
    {
        self.process_requested
    }
}

/// The parameter queues between the control context and one plugin's
/// processor: values changed by the application flow toward the audio
/// context, values reported by the plugin flow back.
pub struct ParamQueues {
    /// Drained by the processor once per cycle.
    pub from_main: Vec<AutomationIoEvent>,
    /// Filled by the processor with sanitized parameter output events.
    pub to_main: Vec<AutomationIoEvent>,
}

impl ParamQueues {
    /// Drains every pending parameter event into the plugin's input-event
    /// scratch buffer, in queue order; reports whether any was pending.
    pub fn consume_into_event_buffer(&mut self, in_events: &mut Vec<PluginIoEvent>) -> (has: bool)
        ensures
            has == (old(self).from_main@.len() > 0),
            final(self).from_main@ == Seq::<AutomationIoEvent>::empty(),
            final(self).to_main@ == old(self).to_main@,
            final(in_events)@ == old(in_events)@ + old(self).from_main@.map_values(
                |e: AutomationIoEvent| PluginIoEvent::Param(e),
            ),
    {
        let n = self.from_main.len();
        let mut i: usize = 0;
        while i < n
            invariant
                i <= n,
                n == self.from_main@.len(),
                self.from_main@ == old(self).from_main@,
                self.to_main@ == old(self).to_main@,
                in_events@ == old(in_events)@ + self.from_main@.subrange(0, i as int).map_values(
                    |e: AutomationIoEvent| PluginIoEvent::Param(e),
                ),
            decreases n - i,
        {
            let e = self.from_main[i];
            in_events.push(PluginIoEvent::Param(e));
            proof {
                assert(self.from_main@.subrange(0, i + 1)
                    =~= self.from_main@.subrange(0, i as int).push(e));
                assert(self.from_main@.subrange(0, i + 1).map_values(
                    |ev: AutomationIoEvent| PluginIoEvent::Param(ev),
                ) =~= self.from_main@.subrange(0, i as int).map_values(
                    |ev: AutomationIoEvent| PluginIoEvent::Param(ev),
                ).push(PluginIoEvent::Param(e)));
            }
            i = i + 1;
        }
        proof {
            assert(self.from_main@.subrange(0, n as int) =~= self.from_main@);
        }
        self.from_main.clear();
        n > 0
    }
}

/// Everything the processor shares with the control context.
pub struct PlugHostChannelProcThread {
    pub shared_state: SharedPluginState,
    pub param_queues: Option<ParamQueues>,
}

} // verus!
