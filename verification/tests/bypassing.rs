use dropseed::buffer::{DebugBufferID, DebugBufferType, SharedBuffer};
use dropseed::channel::{PlugHostChannelProcThread, PluginActiveState, SharedPluginState};
use dropseed::events::PluginEventIoBuffers;
use dropseed::plugin::PassthroughPlugin;
use dropseed::port::{AudioPortBuffer, ProcBuffers};
use dropseed::processor::{PluginHostProcessor, ProcInfo};

const FRAMES: usize = 8;
const RAMP: usize = 4;

fn audio_id(index: u32) -> DebugBufferID {
    DebugBufferID { index, buffer_type: DebugBufferType::Audio32 }
}

/// Pool with one input channel (index 0), the main output channel (1) and a
/// second output port's channel (2).
fn make_pool(input: &[i32], out_main: &[i32], out_aux: &[i32]) -> Vec<SharedBuffer<i32>> {
    let mut pool = Vec::new();
    for (idx, data) in [input, out_main, out_aux].iter().enumerate() {
        let mut b = SharedBuffer::new(FRAMES, audio_id(idx as u32));
        for (i, s) in data.iter().enumerate() {
            b.set(i, *s);
        }
        pool.push(b);
    }
    pool
}

fn make_buffers(main_through: bool) -> ProcBuffers {
    ProcBuffers {
        audio_in: vec![AudioPortBuffer { channels: vec![0], latency: 0 }],
        audio_out: vec![
            AudioPortBuffer { channels: vec![1], latency: 0 },
            AudioPortBuffer { channels: vec![2], latency: 0 },
        ],
        main_audio_through_when_bypassed: main_through,
    }
}

fn make_processor() -> PluginHostProcessor<PassthroughPlugin> {
    let channel = PlugHostChannelProcThread {
        shared_state: SharedPluginState::new(),
        param_queues: None,
    };
    PluginHostProcessor::new(PassthroughPlugin::new(), 1, channel, 4, 1, RAMP)
}

fn proc_info() -> ProcInfo {
    ProcInfo { frames: FRAMES, schedule_version: 1, transport_event: None }
}

/// The crossfade formula the library promises: the bias-shifted convex
/// combination with a single flooring division.
fn expected_mix(out: i32, inp: i32, d: i64, n: i64) -> i32 {
    let a = out as i64 + 0x8000_0000;
    let b = inp as i64 + 0x8000_0000;
    ((a * d + b * (n - d)) / n - 0x8000_0000) as i32
}

#[test]
fn entering_bypass_crossfades_then_passes_through() {
    // A single toggle held for a whole cycle of at least RAMP frames: the
    // main output crossfades from the processed samples toward the raw input
    // with a strictly falling wet weight, and from frame RAMP on it is pure
    // passthrough.
    let mut p = make_processor();
    p.bypassed = true;
    p.bypass_declick_frames_left = RAMP;
    p.bypass_declick = RAMP;

    let input = [200, 200, 200, 200, 200, 200, 200, 200];
    let out_main = [1000, 1000, 1000, 1000, 1000, 1000, 1000, 1000];
    let out_aux = [400, 400, 400, 400, 400, 400, 400, 400];
    let mut pool = make_pool(&input, &out_main, &out_aux);
    let buffers = make_buffers(true);
    p.bypass_declick(&proc_info(), &mut pool, &buffers);

    // Weight numerators 3, 2, 1, 0 over a ramp of 4.
    for i in 0..RAMP {
        let d = (RAMP - 1 - i) as i64;
        assert_eq!(*pool[1].get(i), expected_mix(1000, 200, d, RAMP as i64), "main frame {i}");
        assert_eq!(*pool[2].get(i), expected_mix(400, 0, d, RAMP as i64), "aux frame {i}");
    }
    // Concretely: 800, 600, 400, 200 on the main channel.
    assert_eq!(*pool[1].get(0), 800);
    assert_eq!(*pool[1].get(1), 600);
    assert_eq!(*pool[1].get(2), 400);
    assert_eq!(*pool[1].get(3), 200);
    for i in RAMP..FRAMES {
        assert_eq!(*pool[1].get(i), 200, "pure passthrough after the ramp");
        assert_eq!(*pool[2].get(i), 0, "aux port silent after the ramp");
    }
    assert!(!pool[1].is_constant());
    assert_eq!(p.bypass_declick_frames_left, 0);
    assert_eq!(p.bypass_declick, 0);
}

#[test]
fn entering_bypass_without_main_port_ramps_to_silence() {
    let mut p = make_processor();
    p.bypassed = true;
    p.bypass_declick_frames_left = RAMP;
    p.bypass_declick = RAMP;

    let mut pool = make_pool(
        &[200; 8],
        &[1000, 1000, 1000, 1000, 1000, 1000, 1000, 1000],
        &[400; 8],
    );
    let buffers = make_buffers(false);
    p.bypass_declick(&proc_info(), &mut pool, &buffers);
    assert_eq!(*pool[1].get(0), 750);
    assert_eq!(*pool[1].get(1), 500);
    assert_eq!(*pool[1].get(2), 250);
    for i in RAMP - 1..FRAMES {
        assert_eq!(*pool[1].get(i), 0, "pure silence after the ramp");
    }
}

#[test]
fn leaving_bypass_ramps_back_toward_the_processed_signal() {
    let mut p = make_processor();
    p.bypassed = false;
    p.bypass_declick_frames_left = RAMP;
    p.bypass_declick = 0;

    let mut pool = make_pool(&[200; 8], &[1000; 8], &[400; 8]);
    let buffers = make_buffers(true);
    p.bypass_declick(&proc_info(), &mut pool, &buffers);
    // Weight numerators 1, 2, 3, 4: the wet share rises back to one.
    assert_eq!(*pool[1].get(0), 400);
    assert_eq!(*pool[1].get(1), 600);
    assert_eq!(*pool[1].get(2), 800);
    assert_eq!(*pool[1].get(3), 1000);
    for i in RAMP..FRAMES {
        assert_eq!(*pool[1].get(i), 1000, "plugin output untouched after the ramp");
    }
    assert_eq!(p.bypass_declick_frames_left, 0);
    assert_eq!(p.bypass_declick, RAMP);
}

#[test]
fn ramp_spans_cycles_when_longer_than_one_cycle() {
    // A ramp of 4 against cycles of 3 frames: the first cycle consumes 3 ramp
    // frames, the next one the last.
    let mut p = make_processor();
    p.bypassed = true;
    p.bypass_declick_frames_left = RAMP;
    p.bypass_declick = RAMP;

    let mut pool = make_pool(&[200; 8], &[1000; 8], &[400; 8]);
    let buffers = make_buffers(true);
    let short_info = ProcInfo { frames: 3, schedule_version: 1, transport_event: None };
    p.bypass_declick(&short_info, &mut pool, &buffers);
    assert_eq!(p.bypass_declick_frames_left, 1);
    assert_eq!(p.bypass_declick, 1);
    assert_eq!(*pool[1].get(0), 800);
    assert_eq!(*pool[1].get(1), 600);
    assert_eq!(*pool[1].get(2), 400);

    p.bypass_declick(&short_info, &mut pool, &buffers);
    assert_eq!(p.bypass_declick_frames_left, 0);
    assert_eq!(p.bypass_declick, 0);
    assert_eq!(*pool[1].get(0), 200);
}

#[test]
fn steady_bypass_passes_main_port_through_with_hint() {
    let mut p = make_processor();
    p.bypassed = true;
    p.bypass_declick_frames_left = 0;
    p.bypass_declick = 0;

    let mut pool = make_pool(&[5, 6, 7, 8, 9, 10, 11, 12], &[1000; 8], &[400; 8]);
    pool[0].set_constant(false);
    let buffers = make_buffers(true);
    p.bypass(&proc_info(), &mut pool, &buffers);
    for i in 0..FRAMES {
        assert_eq!(*pool[1].get(i), *pool[0].get(i));
        assert_eq!(*pool[2].get(i), 0);
    }
    assert_eq!(pool[1].is_constant(), pool[0].is_constant());
    assert!(pool[2].is_constant());
}

#[test]
fn steady_bypass_with_silent_hint_leaves_outputs_cleared() {
    let mut p = make_processor();
    p.bypassed = true;
    let mut pool = make_pool(&[0; 8], &[1000; 8], &[400; 8]);
    pool[0].set_constant(true);
    let buffers = make_buffers(true);
    p.bypass(&proc_info(), &mut pool, &buffers);
    for i in 0..FRAMES {
        assert_eq!(*pool[1].get(i), 0);
        assert_eq!(*pool[2].get(i), 0);
    }
}

#[test]
fn bypass_toggle_mid_ramp_reflects_the_remaining_counter() {
    // Toggling while a ramp is in progress reverses it in place: the
    // remaining-frame counter is reflected against the ramp length and the
    // weight continues from where it stands, so the crossfade is continuous.
    let mut p = make_processor();
    // Mid-ramp entering bypass: weight 1 of 4 left after three frames played.
    p.bypassed = true;
    p.bypass_declick_frames_left = 1;
    p.bypass_declick = 1;
    // The control context toggles bypass off.
    p.channel.shared_state.set_bypassed(false);

    let mut pool = make_pool(&[200; 8], &[1000; 8], &[400; 8]);
    let buffers = make_buffers(true);
    let mut eb = PluginEventIoBuffers {
        note_in: Vec::new(),
        note_out: Vec::new(),
        automation_in: Vec::new(),
        automation_out_buffer: None,
    };
    let info = ProcInfo { frames: FRAMES, schedule_version: 1, transport_event: None };
    let dropped = p.process(&info, &mut pool, &buffers, &mut eb);
    assert!(!dropped);
    assert!(!p.bypassed);
    // Remaining was reflected to 4 - 1 = 3, then fully consumed this cycle.
    assert_eq!(p.bypass_declick_frames_left, 0);
    assert_eq!(p.bypass_declick, RAMP);
    assert_eq!(p.channel.shared_state.get_active_state(), PluginActiveState::Active);
}
