use dropseed::buffer::{DebugBufferID, DebugBufferType, SharedBuffer};
use dropseed::channel::{ParamQueues, PlugHostChannelProcThread, PluginActiveState, SharedPluginState};
use dropseed::events::{
    AutomationIoEvent, NoteEventType, NoteIoEvent, PluginEventIoBuffers, PluginIoEvent,
};
use dropseed::plugin::PassthroughPlugin;
use dropseed::port::{AudioPortBuffer, ProcBuffers};
use dropseed::processor::{PluginHostProcessor, ProcInfo, ProcessStatus, ProcessingState};

const FRAMES: usize = 4;

fn audio_id(index: u32) -> DebugBufferID {
    DebugBufferID { index, buffer_type: DebugBufferType::Audio32 }
}

/// Pool of four buffers: 0 and 1 back the input port, 2 and 3 the output.
fn make_pool(in_a: &[i32], in_b: &[i32], out_fill: i32) -> Vec<SharedBuffer<i32>> {
    let mut pool = Vec::new();
    for (idx, data) in [in_a, in_b].iter().enumerate() {
        let mut b = SharedBuffer::new(FRAMES, audio_id(idx as u32));
        for (i, s) in data.iter().enumerate() {
            b.set(i, *s);
        }
        pool.push(b);
    }
    for idx in 2..4 {
        let mut b = SharedBuffer::new(FRAMES, audio_id(idx));
        for i in 0..FRAMES {
            b.set(i, out_fill);
        }
        pool.push(b);
    }
    pool
}

fn make_buffers() -> ProcBuffers {
    ProcBuffers {
        audio_in: vec![AudioPortBuffer { channels: vec![0, 1], latency: 0 }],
        audio_out: vec![AudioPortBuffer { channels: vec![2, 3], latency: 0 }],
        main_audio_through_when_bypassed: true,
    }
}

fn make_channel(active: PluginActiveState) -> PlugHostChannelProcThread {
    let mut shared = SharedPluginState::new();
    shared.set_active_state(active);
    PlugHostChannelProcThread {
        shared_state: shared,
        param_queues: Some(ParamQueues { from_main: Vec::new(), to_main: Vec::new() }),
    }
}

fn make_processor(active: PluginActiveState) -> PluginHostProcessor<PassthroughPlugin> {
    PluginHostProcessor::new(PassthroughPlugin::new(), 7, make_channel(active), 8, 1, 4)
}

fn make_event_buffers() -> PluginEventIoBuffers {
    PluginEventIoBuffers {
        note_in: Vec::new(),
        note_out: Vec::new(),
        automation_in: Vec::new(),
        automation_out_buffer: None,
    }
}

fn proc_info(frames: usize, schedule_version: u64) -> ProcInfo {
    ProcInfo { frames, schedule_version, transport_event: None }
}

fn note(key: i16) -> NoteIoEvent {
    NoteIoEvent { frame: 0, channel: 0, key, event_type: NoteEventType::On, velocity: 99 }
}

fn assert_outputs_cleared(pool: &Vec<SharedBuffer<i32>>) {
    for ch in [2usize, 3] {
        for i in 0..FRAMES {
            assert_eq!(*pool[ch].get(i), 0, "output channel {ch} sample {i}");
        }
        assert!(pool[ch].is_constant());
    }
}

#[test]
fn drop_request_clears_outputs_and_signals_completion() {
    // With the active state at WaitingToDrop, process() reports the drop,
    // silences every output port, and leaves DroppedAndReadyToDeactivate.
    let mut p = make_processor(PluginActiveState::WaitingToDrop);
    let mut pool = make_pool(&[5, 5, 5, 5], &[6, 6, 6, 6], 9);
    let buffers = make_buffers();
    let mut eb = make_event_buffers();
    let dropped = p.process(&proc_info(FRAMES, 1), &mut pool, &buffers, &mut eb);
    assert!(dropped);
    assert_outputs_cleared(&pool);
    assert_eq!(
        p.channel.shared_state.get_active_state(),
        PluginActiveState::DroppedAndReadyToDeactivate
    );
}

#[test]
fn stale_schedule_freezes_processor() {
    // A processor expecting a newer schedule than the cycle's clears its
    // outputs, reports no drop, and leaves its state untouched.
    let mut p = make_processor(PluginActiveState::Active);
    p.schedule_version = 5;
    let mut pool = make_pool(&[5, 5, 5, 5], &[6, 6, 6, 6], 9);
    let buffers = make_buffers();
    let mut eb = make_event_buffers();
    let state_before = p.processing_state;
    let dropped = p.process(&proc_info(FRAMES, 3), &mut pool, &buffers, &mut eb);
    assert!(!dropped);
    assert_outputs_cleared(&pool);
    assert_eq!(p.processing_state, state_before);
}

#[test]
fn first_cycle_starts_plugin_and_passes_audio_through() {
    let mut p = make_processor(PluginActiveState::Inactive);
    let mut pool = make_pool(&[1, 2, 3, 4], &[10, 20, 30, 40], 9);
    let buffers = make_buffers();
    let mut eb = make_event_buffers();
    let dropped = p.process(&proc_info(FRAMES, 1), &mut pool, &buffers, &mut eb);
    assert!(!dropped);
    assert_eq!(p.processing_state, ProcessingState::Started(ProcessStatus::Continue));
    assert_eq!(p.channel.shared_state.get_active_state(), PluginActiveState::Active);
    for i in 0..FRAMES {
        assert_eq!(*pool[2].get(i), *pool[0].get(i));
        assert_eq!(*pool[3].get(i), *pool[1].get(i));
    }
}

#[test]
fn errored_processor_only_clears_outputs() {
    let mut p = make_processor(PluginActiveState::Active);
    p.processing_state = ProcessingState::Errored;
    let mut pool = make_pool(&[1, 1, 1, 1], &[1, 1, 1, 1], 9);
    let buffers = make_buffers();
    let mut eb = make_event_buffers();
    let dropped = p.process(&proc_info(FRAMES, 1), &mut pool, &buffers, &mut eb);
    assert!(!dropped);
    assert_outputs_cleared(&pool);
    assert_eq!(p.processing_state, ProcessingState::Errored);
}

#[test]
fn process_request_wakes_an_errored_processor() {
    let mut p = make_processor(PluginActiveState::Active);
    p.processing_state = ProcessingState::Errored;
    p.channel.shared_state.process_requested = true;
    let mut pool = make_pool(&[1, 2, 3, 4], &[0, 0, 0, 0], 9);
    let buffers = make_buffers();
    let mut eb = make_event_buffers();
    p.process(&proc_info(FRAMES, 1), &mut pool, &buffers, &mut eb);
    assert_eq!(p.processing_state, ProcessingState::Started(ProcessStatus::Continue));
}

#[test]
fn quiet_inputs_put_a_continue_if_not_quiet_plugin_to_sleep() {
    let mut p = make_processor(PluginActiveState::Active);
    p.processing_state = ProcessingState::Started(ProcessStatus::ContinueIfNotQuiet);
    p.plugin.processing = true;
    let mut pool = make_pool(&[0, 0, 0, 0], &[0, 0, 0, 0], 9);
    let buffers = make_buffers();
    let mut eb = make_event_buffers();
    let dropped = p.process(&proc_info(FRAMES, 1), &mut pool, &buffers, &mut eb);
    assert!(!dropped);
    assert_eq!(p.processing_state, ProcessingState::Stopped);
    assert_outputs_cleared(&pool);
    assert!(!p.plugin.processing);
}

#[test]
fn non_silent_input_keeps_continue_if_not_quiet_plugin_running() {
    let mut p = make_processor(PluginActiveState::Active);
    p.processing_state = ProcessingState::Started(ProcessStatus::ContinueIfNotQuiet);
    p.plugin.processing = true;
    let mut pool = make_pool(&[0, 0, 1, 0], &[0, 0, 0, 0], 9);
    let buffers = make_buffers();
    let mut eb = make_event_buffers();
    p.process(&proc_info(FRAMES, 1), &mut pool, &buffers, &mut eb);
    assert_eq!(p.processing_state, ProcessingState::Started(ProcessStatus::Continue));
    assert_eq!(*pool[2].get(2), 1);
}

#[test]
fn sleeping_processor_stays_asleep_without_notes() {
    let mut p = make_processor(PluginActiveState::Active);
    p.processing_state = ProcessingState::Stopped;
    let mut pool = make_pool(&[1, 1, 1, 1], &[1, 1, 1, 1], 9);
    let buffers = make_buffers();
    let mut eb = make_event_buffers();
    let dropped = p.process(&proc_info(FRAMES, 1), &mut pool, &buffers, &mut eb);
    assert!(!dropped);
    assert_eq!(p.processing_state, ProcessingState::Stopped);
    assert_outputs_cleared(&pool);
}

#[test]
fn note_event_wakes_a_sleeping_processor() {
    let mut p = make_processor(PluginActiveState::Active);
    p.processing_state = ProcessingState::Stopped;
    let mut pool = make_pool(&[1, 2, 3, 4], &[0, 0, 0, 0], 9);
    let buffers = make_buffers();
    let mut eb = make_event_buffers();
    eb.note_in.push(note(60));
    let dropped = p.process(&proc_info(FRAMES, 1), &mut pool, &buffers, &mut eb);
    assert!(!dropped);
    assert_eq!(p.processing_state, ProcessingState::Started(ProcessStatus::Continue));
    assert_eq!(p.channel.shared_state.get_active_state(), PluginActiveState::Active);
}

#[test]
fn note_events_are_routed_to_the_note_output() {
    // The passthrough plugin echoes its input events, so the notes fed in
    // come back out through the note output buffer.
    let mut p = make_processor(PluginActiveState::Active);
    let mut pool = make_pool(&[1, 1, 1, 1], &[1, 1, 1, 1], 9);
    let buffers = make_buffers();
    let mut eb = make_event_buffers();
    eb.note_in.push(note(60));
    eb.note_in.push(note(64));
    p.process(&proc_info(FRAMES, 1), &mut pool, &buffers, &mut eb);
    assert_eq!(eb.note_out.len(), 2);
    assert_eq!(eb.note_out[0].key, 60);
    assert_eq!(eb.note_out[1].key, 64);
}

#[test]
fn parameter_output_events_are_sanitized_and_forwarded() {
    // The sanitizer drops events with unknown parameter ids and duplicates
    // within the cycle; what survives lands on the queue toward the control
    // context. The processor was built with 8 declared parameters.
    let mut p = make_processor(PluginActiveState::Active);
    let mut pool = make_pool(&[1, 1, 1, 1], &[1, 1, 1, 1], 9);
    let buffers = make_buffers();
    let mut eb = make_event_buffers();
    if let Some(q) = &mut p.channel.param_queues {
        q.from_main.push(AutomationIoEvent { frame: 0, parameter_id: 2, value: 11 });
        q.from_main.push(AutomationIoEvent { frame: 0, parameter_id: 9, value: 22 });
        q.from_main.push(AutomationIoEvent { frame: 0, parameter_id: 2, value: 33 });
    }
    p.process(&proc_info(FRAMES, 1), &mut pool, &buffers, &mut eb);
    let q = p.channel.param_queues.as_ref().unwrap();
    assert_eq!(q.from_main.len(), 0);
    assert_eq!(q.to_main.len(), 1);
    assert_eq!(q.to_main[0].parameter_id, 2);
    assert_eq!(q.to_main[0].value, 11);
}

#[test]
fn transport_event_reaches_the_plugin() {
    let mut p = make_processor(PluginActiveState::Active);
    let mut pool = make_pool(&[1, 1, 1, 1], &[1, 1, 1, 1], 9);
    let buffers = make_buffers();
    let mut eb = make_event_buffers();
    let info = ProcInfo {
        frames: FRAMES,
        schedule_version: 1,
        transport_event: Some(dropseed::events::TransportIoEvent {
            song_pos_frames: 480,
            is_playing: true,
        }),
    };
    p.process(&info, &mut pool, &buffers, &mut eb);
    // The passthrough plugin echoed the transport event into its output
    // scratch buffer.
    assert!(p
        .out_events
        .iter()
        .any(|e| matches!(e, PluginIoEvent::Transport(t) if t.song_pos_frames == 480)));
}

#[test]
fn plugin_descriptor_carries_its_fields() {
    let d = dropseed::plugin::PluginDescriptor {
        id: "org.rustydaw.passthrough".to_string(),
        name: "Passthrough".to_string(),
        vendor: "RustyDAW".to_string(),
        version: "1.0.0".to_string(),
        description: "Copies the main input to the main output.".to_string(),
        features: Some("utility;stereo".to_string()),
        url: None,
        manual_url: None,
        support_url: None,
    };
    let copy = d.clone();
    assert_eq!(copy.id, "org.rustydaw.passthrough");
    assert_eq!(copy.features.as_deref(), Some("utility;stereo"));
}
