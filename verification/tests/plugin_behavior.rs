//! Exercises the host processor against plugins that refuse to start, fail
//! mid-run, or go to sleep.

use dropseed::buffer::{DebugBufferID, DebugBufferType, SharedBuffer};
use dropseed::channel::{PlugHostChannelProcThread, PluginActiveState, SharedPluginState};
use dropseed::events::{AutomationIoEvent, PluginEventIoBuffers, PluginIoEvent};
use dropseed::port::{AudioPortBuffer, ProcBuffers};
use dropseed::processor::{
    PluginHostProcessor, PluginProcessThread, ProcInfo, ProcessStatus, ProcessingState,
};

const FRAMES: usize = 4;

/// A plugin whose per-cycle transform reports a fixed status; when asked to
/// start it answers as configured.
struct ScriptedPlugin {
    refuse_start: bool,
    status: ProcessStatus,
    fill: i32,
    stopped_calls: usize,
}

impl PluginProcessThread for ScriptedPlugin {
    fn start_processing(&mut self) -> Result<(), ()> {
        if self.refuse_start {
            Err(())
        } else {
            Ok(())
        }
    }

    fn stop_processing(&mut self) {
        self.stopped_calls += 1;
    }

    fn process(
        &mut self,
        proc_info: &ProcInfo,
        pool: &mut Vec<SharedBuffer<i32>>,
        buffers: &ProcBuffers,
        _in_events: &Vec<PluginIoEvent>,
        _out_events: &mut Vec<PluginIoEvent>,
    ) -> ProcessStatus {
        for port in buffers.audio_out.iter() {
            for ch in port.channels.iter() {
                for i in 0..proc_info.frames {
                    pool[*ch].set(i, self.fill);
                }
            }
        }
        self.status
    }

    fn process_with_automation_out(
        &mut self,
        proc_info: &ProcInfo,
        pool: &mut Vec<SharedBuffer<i32>>,
        buffers: &ProcBuffers,
        in_events: &Vec<PluginIoEvent>,
        out_events: &mut Vec<PluginIoEvent>,
        _automation_out: &mut Vec<AutomationIoEvent>,
    ) -> ProcessStatus {
        self.process(proc_info, pool, buffers, in_events, out_events)
    }

    fn param_flush(&mut self, _in_events: &Vec<PluginIoEvent>, _out_events: &mut Vec<PluginIoEvent>) {
    }
}

fn make_pool() -> Vec<SharedBuffer<i32>> {
    (0..2)
        .map(|i| {
            let mut b = SharedBuffer::new(
                FRAMES,
                DebugBufferID { index: i, buffer_type: DebugBufferType::Audio32 },
            );
            for j in 0..FRAMES {
                b.set(j, 9);
            }
            b
        })
        .collect()
}

fn make_buffers() -> ProcBuffers {
    ProcBuffers {
        audio_in: vec![AudioPortBuffer { channels: vec![0], latency: 0 }],
        audio_out: vec![AudioPortBuffer { channels: vec![1], latency: 0 }],
        main_audio_through_when_bypassed: false,
    }
}

fn make_processor(plugin: ScriptedPlugin) -> PluginHostProcessor<ScriptedPlugin> {
    let channel = PlugHostChannelProcThread {
        shared_state: SharedPluginState::new(),
        param_queues: None,
    };
    let mut p = PluginHostProcessor::new(plugin, 1, channel, 4, 1, 4);
    p.channel.shared_state.set_active_state(PluginActiveState::Active);
    p
}

fn run_one(
    p: &mut PluginHostProcessor<ScriptedPlugin>,
    pool: &mut Vec<SharedBuffer<i32>>,
) -> bool {
    let info = ProcInfo { frames: FRAMES, schedule_version: 1, transport_event: None };
    let buffers = make_buffers();
    let mut eb = PluginEventIoBuffers {
        note_in: Vec::new(),
        note_out: Vec::new(),
        automation_in: Vec::new(),
        automation_out_buffer: None,
    };
    p.process(&info, pool, &buffers, &mut eb)
}

fn assert_output_cleared(pool: &Vec<SharedBuffer<i32>>) {
    for i in 0..FRAMES {
        assert_eq!(*pool[1].get(i), 0);
    }
    assert!(pool[1].is_constant());
}

#[test]
fn refused_start_parks_the_processor_in_its_errored_state() {
    // StartFailure: sticky error, outputs silenced, no drop reported.
    let plugin =
        ScriptedPlugin { refuse_start: true, status: ProcessStatus::Continue, fill: 5, stopped_calls: 0 };
    let mut p = make_processor(plugin);
    let mut pool = make_pool();
    let dropped = run_one(&mut p, &mut pool);
    assert!(!dropped);
    assert_eq!(p.processing_state, ProcessingState::Errored);
    assert_output_cleared(&pool);

    // The error is sticky: the next cycle only silences the outputs again.
    let mut pool2 = make_pool();
    run_one(&mut p, &mut pool2);
    assert_eq!(p.processing_state, ProcessingState::Errored);
    assert_output_cleared(&pool2);
}

#[test]
fn error_status_discards_the_cycle_and_sticks() {
    // ProcessFailure: the plugin ran and wrote its output, but reported
    // failure; the cycle's output is discarded and the error is sticky.
    let plugin =
        ScriptedPlugin { refuse_start: false, status: ProcessStatus::Error, fill: 5, stopped_calls: 0 };
    let mut p = make_processor(plugin);
    let mut pool = make_pool();
    let dropped = run_one(&mut p, &mut pool);
    assert!(!dropped);
    assert_eq!(p.processing_state, ProcessingState::Errored);
    assert_output_cleared(&pool);
}

#[test]
fn sleep_status_stops_the_plugin() {
    let plugin =
        ScriptedPlugin { refuse_start: false, status: ProcessStatus::Sleep, fill: 5, stopped_calls: 0 };
    let mut p = make_processor(plugin);
    let mut pool = make_pool();
    run_one(&mut p, &mut pool);
    assert_eq!(p.processing_state, ProcessingState::Stopped);
    assert_eq!(p.plugin.stopped_calls, 1);
    // The sleeping cycle's output is kept: sleep is graceful, not an error.
    assert_eq!(*pool[1].get(0), 5);
}

#[test]
fn good_status_is_recorded_in_the_started_state() {
    let plugin = ScriptedPlugin {
        refuse_start: false,
        status: ProcessStatus::ContinueIfNotQuiet,
        fill: 3,
        stopped_calls: 0,
    };
    let mut p = make_processor(plugin);
    let mut pool = make_pool();
    run_one(&mut p, &mut pool);
    assert_eq!(
        p.processing_state,
        ProcessingState::Started(ProcessStatus::ContinueIfNotQuiet)
    );
    assert_eq!(*pool[1].get(0), 3);
}
