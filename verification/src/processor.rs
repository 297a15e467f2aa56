//! The per-plugin processing state machine.
//!
//! One `PluginHostProcessor` drives one plugin instance each cycle: it
//! observes the cross-thread active state, guards against stale schedules,
//! gathers input events, runs the plugin's transform, routes output events,
//! and applies bypass declicking last. It is created when the plugin
//! activates and dropped — by the audio context itself, on request — when the
//! plugin deactivates.

use vstd::prelude::*;

use crate::buffer::SharedBuffer;
use crate::bypass::{
    channel_declicked, declick_channel_pair, declick_channel_silence, passthrough_channel,
    zero_samples, MAX_BYPASS_DECLICK_FRAMES,
};
use crate::channel::{ParamQueues, PlugHostChannelProcThread, PluginActiveState};
use crate::events::{
    note_events_of, param_events_of, sanitize_spec, AutomationIoEvent, PluginEventIoBuffers,
    PluginEventOutputSanitizer, PluginIoEvent, TransportIoEvent,
};
use crate::port::{buffer_cleared, pool_shape_preserved, ProcBuffers};

verus! {

use vstd::arithmetic::div_mod::lemma_div_multiples_vanish;
use vstd::math::min;

/// A plugin's self-reported continuation mode after one cycle.
#[derive(Clone, Copy, PartialEq, Eq, Debug, Structural)]
pub enum ProcessStatus {
    /// Keep running.
    Continue,
    /// Keep running only while fed non-silent audio or note events.
    ContinueIfNotQuiet,
    /// Keep running until the processing tail rings out.
    Tail,
    /// Going to sleep.
    Sleep,
    /// The cycle failed.
    Error,
}

/// Where the processor's state machine stands.
#[derive(Clone, Copy, PartialEq, Eq, Debug, Structural)]
pub enum ProcessingState {
    /// Not started yet, or told to wake up.
    WaitingForStart,
    /// Running, with the status the plugin last reported.
    Started(ProcessStatus),
    /// Asleep; woken by note input or an external process request.
    Stopped,
    /// Start or processing failed; sticky until external reactivation.
    Errored,
}

/// Per-cycle information the audio context hands every task.
pub struct ProcInfo {
    /// Number of frames to process this cycle; at least one.
    pub frames: usize,
    /// Version of the schedule this cycle was compiled against.
    pub schedule_version: u64,
    /// Present when the transport moved this cycle.
    pub transport_event: Option<TransportIoEvent>,
}

/// The contract a plugin's audio-context half satisfies. The host relies on
/// nothing about the plugin's behavior beyond the buffer shape staying fixed
/// for the activation's lifetime; every status and every output is handled.
pub trait PluginProcessThread: Sized {
    /// Called before processing resumes. An error means the plugin refused to
    /// start; the host then parks the processor in its errored state.
    fn start_processing(&mut self) -> (r: Result<(), ()>);

    /// Called when the plugin goes to sleep or its processor is dropped.
    fn stop_processing(&mut self);

    /// The per-cycle transform over the cycle's buffers and input events.
    fn process(
        &mut self,
        proc_info: &ProcInfo,
        pool: &mut Vec<SharedBuffer<i32>>,
        buffers: &ProcBuffers,
        in_events: &Vec<PluginIoEvent>,
        out_events: &mut Vec<PluginIoEvent>,
    ) -> (status: ProcessStatus)
        requires
            proc_info.frames >= 1,
            buffers.wf(old(pool)@, proc_info.frames as int),
        ensures
            pool_shape_preserved(old(pool)@, final(pool)@),
    ;

    /// The transform variant that additionally emits automation events, for
    /// plugins that support it.
    fn process_with_automation_out(
        &mut self,
        proc_info: &ProcInfo,
        pool: &mut Vec<SharedBuffer<i32>>,
        buffers: &ProcBuffers,
        in_events: &Vec<PluginIoEvent>,
        out_events: &mut Vec<PluginIoEvent>,
        automation_out: &mut Vec<AutomationIoEvent>,
    ) -> (status: ProcessStatus)
        requires
            proc_info.frames >= 1,
            buffers.wf(old(pool)@, proc_info.frames as int),
        ensures
            pool_shape_preserved(old(pool)@, final(pool)@),
    ;

    /// Applies pending parameter events without processing audio, so
    /// automation keeps taking effect while the plugin sleeps.
    fn param_flush(&mut self, in_events: &Vec<PluginIoEvent>, out_events: &mut Vec<PluginIoEvent>);
}

/// The main input/output port pair carries audio while bypassed.
pub open spec fn spec_main_through(buffers: ProcBuffers) -> bool {
    buffers.main_audio_through_when_bypassed && buffers.audio_in@.len() >= 1
        && buffers.audio_out@.len() >= 1
}

/// The pool after one declick pass: each main-port output channel with a
/// paired input channel crossfades against it, every other output channel
/// crossfades toward silence, and nothing else moves.
pub open spec fn declick_applied(
    buffers: ProcBuffers,
    pool0: Seq<SharedBuffer<i32>>,
    pool1: Seq<SharedBuffer<i32>>,
    entering: bool,
    d0: int,
    n: int,
    m: int,
    frames: int,
) -> bool {
    &&& pool1.len() == pool0.len()
    &&& forall|b: int| 0 <= b < pool0.len() && !buffers.is_out_channel(b) ==> pool1[b] == pool0[b]
    &&& forall|p: int, c: int|
        buffers.out_pos(p, c) ==> {
            let ch = (#[trigger] buffers.audio_out@[p].channels@[c]) as int;
            if spec_main_through(buffers) && p == 0 && c < buffers.audio_in@[0].channels@.len() {
                channel_declicked(
                    pool0[ch],
                    pool0[buffers.audio_in@[0].channels@[c] as int]@,
                    pool1[ch],
                    entering,
                    d0,
                    n,
                    m,
                    frames,
                )
            } else {
                channel_declicked(
                    pool0[ch],
                    zero_samples(frames),
                    pool1[ch],
                    entering,
                    d0,
                    n,
                    m,
                    frames,
                )
            }
        }
}

/// The pool in the fully-bypassed steady state: every output channel cleared,
/// except that when the main port passes audio through and its input does not
/// hint silence, each paired main output channel carries the input verbatim
/// with its constant hint propagated.
pub open spec fn bypassed_applied(
    buffers: ProcBuffers,
    pool0: Seq<SharedBuffer<i32>>,
    pool1: Seq<SharedBuffer<i32>>,
    frames: int,
) -> bool {
    let pass = spec_main_through(buffers) && !buffers.audio_in@[0].spec_silent_hint(pool0);
    &&& pool1.len() == pool0.len()
    &&& forall|b: int| 0 <= b < pool0.len() && !buffers.is_out_channel(b) ==> pool1[b] == pool0[b]
    &&& forall|p: int, c: int|
        buffers.out_pos(p, c) ==> {
            let ch = (#[trigger] buffers.audio_out@[p].channels@[c]) as int;
            if pass && p == 0 && c < buffers.audio_in@[0].channels@.len() {
                let ich = buffers.audio_in@[0].channels@[c] as int;
                &&& pool1[ch]@.len() == pool0[ch]@.len()
                &&& forall|i: int| 0 <= i < frames ==> pool1[ch]@[i] == pool0[ich]@[i]
                &&& forall|i: int|
                    frames <= i < pool0[ch]@.len() ==> pool1[ch]@[i] == pool0[ch]@[i]
                &&& pool1[ch].constant_hint() == pool0[ich].constant_hint()
                &&& pool1[ch].spec_id() == pool0[ch].spec_id()
            } else {
                buffer_cleared(pool0[ch], pool1[ch], frames)
            }
        }
}

/// The processing state once the external process request is taken into
/// account: a request wakes anything not already started.
pub open spec fn state_after_request(st: ProcessingState, requested: bool) -> ProcessingState {
    if requested && !(st is Started) {
        ProcessingState::WaitingForStart
    } else {
        st
    }
}

/// The bypass bookkeeping `(bypassed, frames_left, declick)` after one
/// cycle's toggle handling and declick chunk: a toggle with no ramp in
/// progress starts a fresh ramp from the extreme matching the new direction;
/// a toggle mid-ramp reverses it by reflecting only the remaining-frame
/// counter; then up to `frames` ramp frames are consumed.
pub open spec fn bypass_fields_after(
    bypassed0: bool,
    left0: int,
    d0: int,
    n: int,
    shared_byp: bool,
    frames: int,
) -> (bool, int, int) {
    let toggled = bypassed0 != shared_byp;
    let left1 = if toggled {
        if left0 == 0 {
            n
        } else {
            n - left0
        }
    } else {
        left0
    };
    let d1 = if toggled && left0 == 0 {
        if shared_byp {
            n
        } else {
            0
        }
    } else {
        d0
    };
    if left1 != 0 {
        let m = min(left1, frames);
        (
            shared_byp,
            left1 - m,
            if shared_byp {
                d1 - m
            } else {
                d1 + m
            },
        )
    } else {
        (shared_byp, left1, d1)
    }
}

/// Everything the processor feeds the plugin this cycle: the drained
/// parameter queue, then the automation events and note events delivered via
/// upstream sum tasks, then the transport event if the transport moved.
pub open spec fn gathered_in_events(
    queues: Option<ParamQueues>,
    eb: PluginEventIoBuffers,
    proc_info: ProcInfo,
) -> Seq<PluginIoEvent> {
    let qparams = match queues {
        Some(q) => q.from_main@.map_values(|e: AutomationIoEvent| PluginIoEvent::Param(e)),
        None => Seq::<PluginIoEvent>::empty(),
    };
    let base = qparams + eb.automation_in@.map_values(
        |e: AutomationIoEvent| PluginIoEvent::Param(e),
    ) + eb.note_in@.map_values(|e: crate::events::NoteIoEvent| PluginIoEvent::Note(e));
    match proc_info.transport_event {
        Some(t) => base.push(PluginIoEvent::Transport(t)),
        None => base,
    }
}

/// Drives one plugin instance once per cycle.
pub struct PluginHostProcessor<P> {
    /// The plugin's audio-context half.
    pub plugin: P,
    /// Stable id of the plugin instance, for diagnostics and event routing.
    pub plugin_instance_id: u64,
    /// State shared with the control context.
    pub channel: PlugHostChannelProcThread,
    /// Input-event scratch buffer, refilled every cycle.
    pub in_events: Vec<PluginIoEvent>,
    /// Output-event scratch buffer the plugin fills.
    pub out_events: Vec<PluginIoEvent>,
    /// Discards malformed parameter output events.
    pub event_output_sanitizer: PluginEventOutputSanitizer,
    /// Where the state machine stands.
    pub processing_state: ProcessingState,
    /// The schedule version this processor was compiled into; while it is
    /// ahead of the cycle's version the processor stays frozen.
    pub schedule_version: u64,
    /// Last observed value of the cross-thread bypass flag.
    pub bypassed: bool,
    /// Mix-weight numerator of the declick ramp; the weight is this over
    /// `bypass_declick_frames`.
    pub bypass_declick: usize,
    /// Ramp length in frames; fixed at construction, never zero.
    pub bypass_declick_frames: usize,
    /// Frames of ramp still to play; zero when no ramp is in progress.
    pub bypass_declick_frames_left: usize,
}

impl<P: PluginProcessThread> PluginHostProcessor<P> {
    /// The ramp bookkeeping is consistent: the remaining frames and the mix
    /// weight always determine each other, which is what makes reversing a
    /// ramp by reflecting only the remaining-frame counter continuous.
    pub open spec fn wf(&self) -> bool {
        &&& 1 <= self.bypass_declick_frames <= MAX_BYPASS_DECLICK_FRAMES
        &&& self.bypass_declick_frames_left <= self.bypass_declick_frames
        &&& self.bypass_declick <= self.bypass_declick_frames
        &&& (self.bypassed ==> self.bypass_declick == self.bypass_declick_frames_left)
        &&& (!self.bypassed ==> self.bypass_declick + self.bypass_declick_frames_left
            == self.bypass_declick_frames)
    }

    pub fn new(
        plugin: P,
        plugin_instance_id: u64,
        channel: PlugHostChannelProcThread,
        num_params: usize,
        schedule_version: u64,
        bypass_declick_frames: usize,
    ) -> (r: Self)
        requires
            1 <= bypass_declick_frames <= MAX_BYPASS_DECLICK_FRAMES,
        ensures
            r.wf(),
            r.plugin == plugin,
            r.plugin_instance_id == plugin_instance_id,
            r.channel == channel,
            r.in_events@ == Seq::<PluginIoEvent>::empty(),
            r.out_events@ == Seq::<PluginIoEvent>::empty(),
            r.event_output_sanitizer.num_params() == num_params,
            r.processing_state == ProcessingState::WaitingForStart,
            r.schedule_version == schedule_version,
            r.bypassed == channel.shared_state.bypassed,
            r.bypass_declick_frames == bypass_declick_frames,
            r.bypass_declick_frames_left == 0,
    {
        let bypassed = channel.shared_state.bypassed;
        let bypass_declick = if bypassed {
            0
        } else {
            bypass_declick_frames
        };
        PluginHostProcessor {
            plugin,
            plugin_instance_id,
            channel,
            in_events: Vec::new(),
            out_events: Vec::new(),
            event_output_sanitizer: PluginEventOutputSanitizer::new(num_params),
            processing_state: ProcessingState::WaitingForStart,
            schedule_version,
            bypassed,
            bypass_declick,
            bypass_declick_frames,
            bypass_declick_frames_left: 0,
        }
    }

    /// One cycle of the declick ramp: crossfades up to `min(remaining,
    /// frames)` samples of every output channel, then advances the ramp
    /// position.
    pub fn bypass_declick(
        &mut self,
        proc_info: &ProcInfo,
        pool: &mut Vec<SharedBuffer<i32>>,
        buffers: &ProcBuffers,
    )
        requires
            old(self).wf(),
            old(self).bypass_declick_frames_left >= 1,
            proc_info.frames >= 1,
            buffers.wf(old(pool)@, proc_info.frames as int),
    ensures
            final(self).wf(),
            declick_applied(
                *buffers,
                old(pool)@,
                final(pool)@,
                old(self).bypassed,
                old(self).bypass_declick as int,
                old(self).bypass_declick_frames as int,
                min(old(self).bypass_declick_frames_left as int, proc_info.frames as int),
                proc_info.frames as int,
            ),
            final(self).bypass_declick_frames_left == old(self).bypass_declick_frames_left - min(
                old(self).bypass_declick_frames_left as int,
                proc_info.frames as int,
            ),
            final(self).bypass_declick as int == if old(self).bypassed {
                old(self).bypass_declick - min(
                    old(self).bypass_declick_frames_left as int,
                    proc_info.frames as int,
                )
            } else {
                old(self).bypass_declick + min(
                    old(self).bypass_declick_frames_left as int,
                    proc_info.frames as int,
                )
            },
            final(self).plugin == old(self).plugin,
            final(self).plugin_instance_id == old(self).plugin_instance_id,
            final(self).channel == old(self).channel,
            final(self).in_events == old(self).in_events,
            final(self).out_events == old(self).out_events,
            final(self).event_output_sanitizer == old(self).event_output_sanitizer,
            final(self).processing_state == old(self).processing_state,
            final(self).schedule_version == old(self).schedule_version,
            final(self).bypassed == old(self).bypassed,
            final(self).bypass_declick_frames == old(self).bypass_declick_frames,
    {
        let frames = proc_info.frames;
        let left = self.bypass_declick_frames_left;
        let m = if left < frames {
            left
        } else {
            frames
        };
        let entering = self.bypassed;
        let d0 = self.bypass_declick;
        let n = self.bypass_declick_frames;
        let ghost pool0 = old(pool)@;

        let main_through = buffers.main_audio_through_when_bypassed && buffers.audio_in.len() >= 1
            && buffers.audio_out.len() >= 1;
        let mut skip_ports: usize = 0;
        if main_through {
            skip_ports = 1;
            let in_port = &buffers.audio_in[0];
            let out_port = &buffers.audio_out[0];
            let n_out = out_port.channels.len();
            let n_in = in_port.channels.len();
            let mut c: usize = 0;
            while c < n_out
                invariant
                    c <= n_out,
                    n_out == buffers.audio_out@[0].channels@.len(),
                    n_in == buffers.audio_in@[0].channels@.len(),
                    in_port == buffers.audio_in@[0],
                    out_port == buffers.audio_out@[0],
                    main_through && spec_main_through(*buffers),
                    pool@.len() == pool0.len(),
                    forall|b: int|
                        0 <= b < pool0.len() && !buffers.out_pos_before(0, c as int, b)
                            ==> pool@[b] == pool0[b],
                    forall|c2: int|
                        0 <= c2 < c ==> {
                            let ch = (#[trigger] buffers.audio_out@[0].channels@[c2]) as int;
                            if c2 < n_in {
                                channel_declicked(
                                    pool0[ch],
                                    pool0[buffers.audio_in@[0].channels@[c2] as int]@,
                                    pool@[ch],
                                    entering,
                                    d0 as int,
                                    n as int,
                                    m as int,
                                    frames as int,
                                )
                            } else {
                                channel_declicked(
                                    pool0[ch],
                                    zero_samples(frames as int),
                                    pool@[ch],
                                    entering,
                                    d0 as int,
                                    n as int,
                                    m as int,
                                    frames as int,
                                )
                            }
                        },
                decreases n_out - c,
            {
                let out_ch = out_port.channels[c];
                proof {
                    buffers.lemma_later_out_channel_not_before(0, c as int, 0, c as int);
                }
                if c < n_in {
                    let in_ch = in_port.channels[c];
                    proof {
                        buffers.lemma_in_channel_not_before(0, c as int, 0, c as int);
                        assert(in_ch != out_ch) by {
                            assert(buffers.audio_in@[0].channels@[c as int]
                                != buffers.audio_out@[0].channels@[c as int]);
                        }
                    }
                    declick_channel_pair(pool, out_ch, in_ch, entering, d0, n, m, frames);
                } else {
                    declick_channel_silence(pool, out_ch, entering, d0, n, m, frames);
                }
                proof {
                    assert forall|b: int|
                        0 <= b < pool0.len() && !buffers.out_pos_before(0, c + 1, b) implies pool@[b]
                        == pool0[b] by {
                        buffers.lemma_out_pos_before_step(0, c as int, b);
                    }
                    assert forall|c2: int| 0 <= c2 < c + 1 implies {
                        let ch = (#[trigger] buffers.audio_out@[0].channels@[c2]) as int;
                        if c2 < n_in {
                            channel_declicked(
                                pool0[ch],
                                pool0[buffers.audio_in@[0].channels@[c2] as int]@,
                                pool@[ch],
                                entering,
                                d0 as int,
                                n as int,
                                m as int,
                                frames as int,
                            )
                        } else {
                            channel_declicked(
                                pool0[ch],
                                zero_samples(frames as int),
                                pool@[ch],
                                entering,
                                d0 as int,
                                n as int,
                                m as int,
                                frames as int,
                            )
                        }
                    } by {
                        if c2 < c {
                            assert(buffers.audio_out@[0].channels@[c2]
                                != buffers.audio_out@[0].channels@[c as int]);
                        }
                    }
                }
                c = c + 1;
            }
            proof {
                assert forall|b: int|
                    0 <= b < pool0.len() && !buffers.out_pos_before(1, 0, b) implies pool@[b]
                    == pool0[b] by {
                    buffers.lemma_out_pos_before_port_step(0, b);
                }
            }
        }

        let n_ports = buffers.audio_out.len();
        let mut p: usize = skip_ports;
        while p < n_ports
            invariant
                skip_ports <= p <= n_ports,
                n_ports == buffers.audio_out@.len(),
                (skip_ports == 1) == (main_through && spec_main_through(*buffers)),
                (skip_ports == 0) == !spec_main_through(*buffers),
                pool@.len() == pool0.len(),
                forall|b: int|
                    0 <= b < pool0.len() && !buffers.out_pos_before(p as int, 0, b)
                        ==> pool@[b] == pool0[b],
                forall|p2: int, c2: int|
                    buffers.out_pos(p2, c2) && p2 < p ==> {
                        let ch = (#[trigger] buffers.audio_out@[p2].channels@[c2]) as int;
                        if spec_main_through(*buffers) && p2 == 0 && c2 < buffers.audio_in@[0].channels@.len() {
                            channel_declicked(
                                pool0[ch],
                                pool0[buffers.audio_in@[0].channels@[c2] as int]@,
                                pool@[ch],
                                entering,
                                d0 as int,
                                n as int,
                                m as int,
                                frames as int,
                            )
                        } else {
                            channel_declicked(
                                pool0[ch],
                                zero_samples(frames as int),
                                pool@[ch],
                                entering,
                                d0 as int,
                                n as int,
                                m as int,
                                frames as int,
                            )
                        }
                    },
            decreases n_ports - p,
        {
            let port = &buffers.audio_out[p];
            let n_chans = port.channels.len();
            let mut c: usize = 0;
            while c < n_chans
                invariant
                    c <= n_chans,
                    skip_ports <= p < n_ports,
                    n_ports == buffers.audio_out@.len(),
                    n_chans == buffers.audio_out@[p as int].channels@.len(),
                    port == buffers.audio_out@[p as int],
                    (skip_ports == 1) == (main_through && spec_main_through(*buffers)),
                    (skip_ports == 0) == !spec_main_through(*buffers),
                    pool@.len() == pool0.len(),
                    forall|b: int|
                        0 <= b < pool0.len() && !buffers.out_pos_before(p as int, c as int, b)
                            ==> pool@[b] == pool0[b],
                    forall|p2: int, c2: int|
                        buffers.out_pos(p2, c2) && (p2 < p || (p2 == p && c2 < c)) ==> {
                            let ch = (#[trigger] buffers.audio_out@[p2].channels@[c2]) as int;
                            if spec_main_through(*buffers) && p2 == 0 && c2 < buffers.audio_in@[0].channels@.len() {
                                channel_declicked(
                                    pool0[ch],
                                    pool0[buffers.audio_in@[0].channels@[c2] as int]@,
                                    pool@[ch],
                                    entering,
                                    d0 as int,
                                    n as int,
                                    m as int,
                                    frames as int,
                                )
                            } else {
                                channel_declicked(
                                    pool0[ch],
                                    zero_samples(frames as int),
                                    pool@[ch],
                                    entering,
                                    d0 as int,
                                    n as int,
                                    m as int,
                                    frames as int,
                                )
                            }
                        },
                decreases n_chans - c,
            {
                let out_ch = port.channels[c];
                proof {
                    buffers.lemma_later_out_channel_not_before(p as int, c as int, p as int, c as int);
                }
                declick_channel_silence(pool, out_ch, entering, d0, n, m, frames);
                proof {
                    assert forall|b: int|
                        0 <= b < pool0.len() && !buffers.out_pos_before(p as int, c + 1, b) implies pool@[b]
                        == pool0[b] by {
                        buffers.lemma_out_pos_before_step(p as int, c as int, b);
                    }
                    assert forall|p2: int, c2: int|
                        buffers.out_pos(p2, c2) && (p2 < p || (p2 == p && c2 < c + 1)) implies {
                        let ch = (#[trigger] buffers.audio_out@[p2].channels@[c2]) as int;
                        if spec_main_through(*buffers) && p2 == 0 && c2 < buffers.audio_in@[0].channels@.len() {
                            channel_declicked(
                                pool0[ch],
                                pool0[buffers.audio_in@[0].channels@[c2] as int]@,
                                pool@[ch],
                                entering,
                                d0 as int,
                                n as int,
                                m as int,
                                frames as int,
                            )
                        } else {
                            channel_declicked(
                                pool0[ch],
                                zero_samples(frames as int),
                                pool@[ch],
                                entering,
                                d0 as int,
                                n as int,
                                m as int,
                                frames as int,
                            )
                        }
                    } by {
                        if !(p2 == p && c2 == c as int) {
                            assert(buffers.audio_out@[p2].channels@[c2]
                                != buffers.audio_out@[p as int].channels@[c as int]);
                        }
                    }
                }
                c = c + 1;
            }
            proof {
                assert forall|b: int|
                    0 <= b < pool0.len() && !buffers.out_pos_before(p + 1, 0, b) implies pool@[b]
                    == pool0[b] by {
                    buffers.lemma_out_pos_before_port_step(p as int, b);
                }
            }
            p = p + 1;
        }
        proof {
            assert forall|b: int|
                0 <= b < pool0.len() && !buffers.is_out_channel(b) implies pool@[b] == pool0[b] by {
                buffers.lemma_out_pos_before_end(b);
            }
        }

        self.bypass_declick_frames_left = left - m;
        if entering {
            self.bypass_declick = d0 - m;
        } else {
            self.bypass_declick = d0 + m;
        }
    }

    /// The fully-bypassed steady state: every output is cleared, and when the
    /// main port is configured to pass audio through while bypassed (and its
    /// input does not hint silence) the main input is copied to the main
    /// output with its constant hint propagated.
    pub fn bypass(
        &mut self,
        proc_info: &ProcInfo,
        pool: &mut Vec<SharedBuffer<i32>>,
        buffers: &ProcBuffers,
    )
        requires
            old(self).wf(),
            proc_info.frames >= 1,
            buffers.wf(old(pool)@, proc_info.frames as int),
        ensures
            final(self).wf(),
            bypassed_applied(*buffers, old(pool)@, final(pool)@, proc_info.frames as int),
            *final(self) == *old(self),
    {
        let frames = proc_info.frames;
        let ghost pool0 = old(pool)@;
        buffers.clear_all_outputs(pool, frames);

        let main_through = buffers.main_audio_through_when_bypassed && buffers.audio_in.len() >= 1
            && buffers.audio_out.len() >= 1;
        if !main_through {
            return ;
        }
        let in_port = &buffers.audio_in[0];
        proof {
            assert forall|c: int| 0 <= c < in_port.channels@.len() implies pool@[(
            #[trigger] in_port.channels@[c]) as int] == pool0[in_port.channels@[c] as int] by {
                buffers.lemma_in_channel_not_out(0, c);
            }
        }
        if in_port.has_silent_hint(pool) {
            proof {
                assert(buffers.audio_in@[0].spec_silent_hint(pool0)) by {
                    assert forall|c: int| 0 <= c < in_port.channels@.len() implies (
                    #[trigger] pool0[in_port.channels@[c] as int]).constant_hint() && pool0[
                    in_port.channels@[c] as int]@[0] == 0i32 by {
                        assert(pool@[in_port.channels@[c] as int] == pool0[in_port.channels@[c] as int]);
                    }
                }
            }
            return ;
        }
        proof {
            assert(!buffers.audio_in@[0].spec_silent_hint(pool0)) by {
                let c = choose|c: int|
                    0 <= c < in_port.channels@.len() && !((#[trigger] pool@[in_port.channels@[c] as int]).constant_hint()
                        && pool@[in_port.channels@[c] as int]@[0] == 0i32);
                assert(pool@[in_port.channels@[c] as int] == pool0[in_port.channels@[c] as int]);
            }
        }

        let out_port = &buffers.audio_out[0];
        let paired = if in_port.channels.len() < out_port.channels.len() {
            in_port.channels.len()
        } else {
            out_port.channels.len()
        };
        let ghost pool_mid = pool@;
        let mut c: usize = 0;
        while c < paired
            invariant
                c <= paired,
                paired <= in_port.channels@.len(),
                paired <= out_port.channels@.len(),
                in_port == buffers.audio_in@[0],
                out_port == buffers.audio_out@[0],
                main_through && spec_main_through(*buffers),
                pool@.len() == pool0.len(),
                pool_mid.len() == pool0.len(),
                buffers.outputs_cleared(pool0, pool_mid, frames as int),
                forall|b: int|
                    0 <= b < pool0.len() && !buffers.out_pos_before(0, c as int, b)
                        ==> pool@[b] == pool_mid[b],
                forall|c2: int|
                    0 <= c2 < c ==> {
                        let ch = (#[trigger] buffers.audio_out@[0].channels@[c2]) as int;
                        let ich = buffers.audio_in@[0].channels@[c2] as int;
                        &&& pool@[ch]@.len() == pool0[ch]@.len()
                        &&& forall|i: int| 0 <= i < frames ==> pool@[ch]@[i] == pool0[ich]@[i]
                        &&& forall|i: int|
                            frames <= i < pool0[ch]@.len() ==> pool@[ch]@[i] == pool0[ch]@[i]
                        &&& pool@[ch].constant_hint() == pool0[ich].constant_hint()
                        &&& pool@[ch].spec_id() == pool0[ch].spec_id()
                    },
            decreases paired - c,
        {
            let out_ch = out_port.channels[c];
            let in_ch = in_port.channels[c];
            proof {
                buffers.lemma_later_out_channel_not_before(0, c as int, 0, c as int);
                buffers.lemma_in_channel_not_before(0, c as int, 0, c as int);
                buffers.lemma_in_channel_not_out(0, c as int);
                assert(in_ch != out_ch) by {
                    assert(buffers.audio_in@[0].channels@[c as int]
                        != buffers.audio_out@[0].channels@[c as int]);
                }
            }
            passthrough_channel(pool, out_ch, in_ch, frames);
            proof {
                assert forall|b: int|
                    0 <= b < pool0.len() && !buffers.out_pos_before(0, c + 1, b) implies pool@[b]
                    == pool_mid[b] by {
                    buffers.lemma_out_pos_before_step(0, c as int, b);
                }
                assert forall|c2: int| 0 <= c2 < c + 1 implies {
                    let ch = (#[trigger] buffers.audio_out@[0].channels@[c2]) as int;
                    let ich = buffers.audio_in@[0].channels@[c2] as int;
                    &&& pool@[ch]@.len() == pool0[ch]@.len()
                    &&& forall|i: int| 0 <= i < frames ==> pool@[ch]@[i] == pool0[ich]@[i]
                    &&& forall|i: int|
                        frames <= i < pool0[ch]@.len() ==> pool@[ch]@[i] == pool0[ch]@[i]
                    &&& pool@[ch].constant_hint() == pool0[ich].constant_hint()
                    &&& pool@[ch].spec_id() == pool0[ch].spec_id()
                } by {
                    if c2 < c {
                        assert(buffers.audio_out@[0].channels@[c2]
                            != buffers.audio_out@[0].channels@[c as int]);
                    } else {
                        assert(buffers.out_pos(0, c as int));
                    }
                }
            }
            c = c + 1;
        }
        proof {
            assert forall|b: int|
                0 <= b < pool0.len() && !buffers.is_out_channel(b) implies pool@[b] == pool0[b] by {
                buffers.lemma_out_pos_before_end(b);
                if !buffers.out_pos_before(0, paired as int, b) {
                    assert(pool@[b] == pool_mid[b]);
                }
                assert(!buffers.is_out_channel(b) ==> !buffers.out_pos_before(
                    0,
                    paired as int,
                    b,
                )) by {
                    if buffers.out_pos_before(0, paired as int, b) {
                        let (p2, c2) = choose|p2: int, c2: int|
                            buffers.out_pos(p2, c2) && (p2 < 0 || (p2 == 0 && c2 < paired)) && (
                            #[trigger] buffers.audio_out@[p2].channels@[c2]) as int == b;
                        assert(buffers.is_out_channel(b));
                    }
                }
            }
            assert forall|p2: int, c2: int| buffers.out_pos(p2, c2) implies {
                let ch = (#[trigger] buffers.audio_out@[p2].channels@[c2]) as int;
                if p2 == 0 && c2 < buffers.audio_in@[0].channels@.len() && c2 < paired {
                    true
                } else {
                    buffer_cleared(pool0[ch], pool@[ch], frames as int)
                }
            } by {
                let ch = buffers.audio_out@[p2].channels@[c2] as int;
                if !(p2 == 0 && c2 < paired) {
                    assert(!buffers.out_pos_before(0, paired as int, ch)) by {
                        if buffers.out_pos_before(0, paired as int, ch) {
                            let (p3, c3) = choose|p3: int, c3: int|
                                buffers.out_pos(p3, c3) && (p3 < 0 || (p3 == 0 && c3 < paired)) && (
                                #[trigger] buffers.audio_out@[p3].channels@[c3]) as int == ch;
                            assert(buffers.audio_out@[p3].channels@[c3]
                                != buffers.audio_out@[p2].channels@[c2]);
                        }
                    }
                    assert(pool@[ch] == pool_mid[ch]);
                }
            }
        }
    }

    /// Drains the parameter queue and the per-cycle event buffers into the
    /// input scratch buffer, then appends the transport event if the
    /// transport moved. Reports `(note event arrived, parameter event
    /// arrived)`.
    fn gather_in_events(
        &mut self,
        proc_info: &ProcInfo,
        event_buffers: &PluginEventIoBuffers,
    ) -> (r: (bool, bool))
        ensures
            final(self).in_events@ == gathered_in_events(
                old(self).channel.param_queues,
                *event_buffers,
                *proc_info,
            ),
            r.0 == (event_buffers.note_in@.len() > 0),
            r.1 == ((match old(self).channel.param_queues {
                Some(q) => q.from_main@.len() > 0,
                None => false,
            }) || event_buffers.automation_in@.len() > 0),
            final(self).channel.param_queues is Some <==> old(self).channel.param_queues is Some,
            (old(self).channel.param_queues matches Some(q) ==> final(self).channel.param_queues matches Some(q2) && q2.from_main@.len() == 0 && q2.to_main@
                == q.to_main@),
            final(self).channel.shared_state == old(self).channel.shared_state,
            final(self).plugin == old(self).plugin,
            final(self).plugin_instance_id == old(self).plugin_instance_id,
            final(self).out_events == old(self).out_events,
            final(self).event_output_sanitizer == old(self).event_output_sanitizer,
            final(self).processing_state == old(self).processing_state,
            final(self).schedule_version == old(self).schedule_version,
            final(self).bypassed == old(self).bypassed,
            final(self).bypass_declick == old(self).bypass_declick,
            final(self).bypass_declick_frames == old(self).bypass_declick_frames,
            final(self).bypass_declick_frames_left == old(self).bypass_declick_frames_left,
    {
        self.in_events.clear();
        let has_param = match &mut self.channel.param_queues {
            Some(q) => q.consume_into_event_buffer(&mut self.in_events),
            None => false,
        };
        let r = event_buffers.write_input_events(&mut self.in_events);
        if let Some(transport_in_event) = proc_info.transport_event {
            self.in_events.push(PluginIoEvent::Transport(transport_in_event));
        }
        (r.0, has_param || r.1)
    }

    /// Applies the bypass stage: folds a toggle of the cross-thread bypass
    /// flag into the ramp bookkeeping, then runs the declick chunk while a
    /// ramp is in progress, or the fully-bypassed steady state.
    fn apply_bypass(
        &mut self,
        proc_info: &ProcInfo,
        pool: &mut Vec<SharedBuffer<i32>>,
        buffers: &ProcBuffers,
    )
        requires
            old(self).wf(),
            proc_info.frames >= 1,
            buffers.wf(old(pool)@, proc_info.frames as int),
        ensures
            final(self).wf(),
            pool_shape_preserved(old(pool)@, final(pool)@),
            final(self).bypassed == bypass_fields_after(
                old(self).bypassed,
                old(self).bypass_declick_frames_left as int,
                old(self).bypass_declick as int,
                old(self).bypass_declick_frames as int,
                old(self).channel.shared_state.bypassed,
                proc_info.frames as int,
            ).0,
            final(self).bypass_declick_frames_left as int == bypass_fields_after(
                old(self).bypassed,
                old(self).bypass_declick_frames_left as int,
                old(self).bypass_declick as int,
                old(self).bypass_declick_frames as int,
                old(self).channel.shared_state.bypassed,
                proc_info.frames as int,
            ).1,
            final(self).bypass_declick as int == bypass_fields_after(
                old(self).bypassed,
                old(self).bypass_declick_frames_left as int,
                old(self).bypass_declick as int,
                old(self).bypass_declick_frames as int,
                old(self).channel.shared_state.bypassed,
                proc_info.frames as int,
            ).2,
            final(self).plugin == old(self).plugin,
            final(self).plugin_instance_id == old(self).plugin_instance_id,
            final(self).channel == old(self).channel,
            final(self).in_events == old(self).in_events,
            final(self).out_events == old(self).out_events,
            final(self).event_output_sanitizer == old(self).event_output_sanitizer,
            final(self).processing_state == old(self).processing_state,
            final(self).schedule_version == old(self).schedule_version,
            final(self).bypass_declick_frames == old(self).bypass_declick_frames,
    {
        let shared_bypassed = self.channel.shared_state.bypassed();
        if self.bypassed != shared_bypassed {
            self.bypassed = shared_bypassed;
            if self.bypass_declick_frames_left == 0 {
                self.bypass_declick_frames_left = self.bypass_declick_frames;
                if self.bypassed {
                    self.bypass_declick = self.bypass_declick_frames;
                } else {
                    self.bypass_declick = 0;
                }
            } else {
                // Reverse the ramp in place: the remaining-frame counter is
                // reflected and the weight continues from where it stands.
                self.bypass_declick_frames_left = self.bypass_declick_frames
                    - self.bypass_declick_frames_left;
            }
        }

        if self.bypass_declick_frames_left != 0 {
            let ghost pool_pre = pool@;
            self.bypass_declick(proc_info, pool, buffers);
            proof {
                lemma_declick_applied_shape(*buffers, pool_pre, pool@, proc_info.frames as int);
            }
        } else if self.bypassed {
            let ghost pool_pre = pool@;
            self.bypass(proc_info, pool, buffers);
            proof {
                lemma_bypassed_applied_shape(*buffers, pool_pre, pool@, proc_info.frames as int);
            }
        }
    }

    /// The live part of a cycle, entered once the drop request, the stale
    /// schedule and the sticky error state have been ruled out: gathers
    /// events, wakes or sleeps the plugin, runs its transform, routes its
    /// output events, and applies the bypass stage.
    fn run_cycle(
        &mut self,
        proc_info: &ProcInfo,
        pool: &mut Vec<SharedBuffer<i32>>,
        buffers: &ProcBuffers,
        event_buffers: &mut PluginEventIoBuffers,
    )
        requires
            old(self).wf(),
            proc_info.frames >= 1,
            buffers.wf(old(pool)@, proc_info.frames as int),
            old(self).processing_state != ProcessingState::Errored,
            old(event_buffers).note_out@.len() == 0,
        ensures
            final(self).wf(),
            pool_shape_preserved(old(pool)@, final(pool)@),
            final(self).plugin_instance_id == old(self).plugin_instance_id,
            final(self).schedule_version == old(self).schedule_version,
            final(self).bypass_declick_frames == old(self).bypass_declick_frames,
            final(self).channel.shared_state.bypassed == old(self).channel.shared_state.bypassed,
            final(self).channel.shared_state.process_requested == old(
                self,
            ).channel.shared_state.process_requested,
            final(self).event_output_sanitizer.num_params() == old(
                self,
            ).event_output_sanitizer.num_params(),
            final(event_buffers).note_in@ == old(event_buffers).note_in@,
            final(event_buffers).automation_in@ == old(event_buffers).automation_in@,
            // Quiet-input fast path: the plugin is put to sleep.
            (old(self).processing_state == ProcessingState::Started(
                ProcessStatus::ContinueIfNotQuiet,
            ) && old(event_buffers).note_in@.len() == 0 && Self::inputs_silent(
                *buffers,
                old(pool)@,
                *proc_info,
            )) ==> {
                &&& buffers.outputs_cleared(old(pool)@, final(pool)@, proc_info.frames as int)
                &&& final(self).processing_state == ProcessingState::Stopped
                &&& final(self).channel.shared_state.active_state == old(
                    self,
                ).channel.shared_state.active_state
                &&& final(self).bypassed == old(self).bypassed
                &&& final(self).bypass_declick_frames_left == old(self).bypass_declick_frames_left
                &&& final(self).in_events@.len() == 0
            },
            // Sleeping with nothing to wake it: stays asleep.
            (old(self).processing_state == ProcessingState::Stopped && old(
                event_buffers,
            ).note_in@.len() == 0) ==> {
                &&& buffers.outputs_cleared(old(pool)@, final(pool)@, proc_info.frames as int)
                &&& final(self).processing_state == ProcessingState::Stopped
                &&& final(self).channel.shared_state.active_state == old(
                    self,
                ).channel.shared_state.active_state
                &&& final(self).bypassed == old(self).bypassed
                &&& final(self).bypass_declick_frames_left == old(self).bypass_declick_frames_left
                &&& final(self).in_events@.len() == 0
            },
            // Wake or run: either the plugin refused to start, or it ran, its
            // events were routed, and the bypass stage was applied.
            (!(old(self).processing_state == ProcessingState::Started(
                ProcessStatus::ContinueIfNotQuiet,
            ) && old(event_buffers).note_in@.len() == 0 && Self::inputs_silent(
                *buffers,
                old(pool)@,
                *proc_info,
            )) && !(old(self).processing_state == ProcessingState::Stopped && old(
                event_buffers,
            ).note_in@.len() == 0)) ==> {
                ||| {
                    &&& (old(self).processing_state == ProcessingState::Stopped || old(
                        self,
                    ).processing_state == ProcessingState::WaitingForStart)
                    &&& final(self).processing_state == ProcessingState::Errored
                    &&& buffers.outputs_cleared(old(pool)@, final(pool)@, proc_info.frames as int)
                    &&& final(self).channel.shared_state.active_state == old(
                        self,
                    ).channel.shared_state.active_state
                    &&& final(self).bypassed == old(self).bypassed
                    &&& final(self).bypass_declick == old(self).bypass_declick
                    &&& final(self).bypass_declick_frames_left == old(
                        self,
                    ).bypass_declick_frames_left
                }
                ||| {
                    &&& (final(self).processing_state is Started || final(self).processing_state
                        == ProcessingState::Stopped || final(self).processing_state
                        == ProcessingState::Errored)
                    &&& ((old(self).processing_state == ProcessingState::Stopped || old(
                        self,
                    ).processing_state == ProcessingState::WaitingForStart) ==> final(self).channel.shared_state.active_state == PluginActiveState::Active)
                    &&& ((old(self).processing_state is Started) ==> final(self).channel.shared_state.active_state == old(
                        self,
                    ).channel.shared_state.active_state)
                    &&& final(self).in_events@ == gathered_in_events(
                        old(self).channel.param_queues,
                        *old(event_buffers),
                        *proc_info,
                    )
                    &&& final(event_buffers).note_out@ == note_events_of(final(self).out_events@)
                    &&& (old(self).channel.param_queues matches Some(q) ==> final(self).channel.param_queues matches Some(q2) && q2.from_main@.len() == 0
                        && q2.to_main@ == q.to_main@ + sanitize_spec(
                        param_events_of(final(self).out_events@),
                        old(self).event_output_sanitizer.num_params(),
                        param_events_of(final(self).out_events@).len() as int,
                    ))
                    &&& (old(self).channel.param_queues is None ==> final(self).channel.param_queues is None)
                    &&& final(self).bypassed == bypass_fields_after(
                        old(self).bypassed,
                        old(self).bypass_declick_frames_left as int,
                        old(self).bypass_declick as int,
                        old(self).bypass_declick_frames as int,
                        old(self).channel.shared_state.bypassed,
                        proc_info.frames as int,
                    ).0
                    &&& final(self).bypass_declick_frames_left as int == bypass_fields_after(
                        old(self).bypassed,
                        old(self).bypass_declick_frames_left as int,
                        old(self).bypass_declick as int,
                        old(self).bypass_declick_frames as int,
                        old(self).channel.shared_state.bypassed,
                        proc_info.frames as int,
                    ).1
                    &&& final(self).bypass_declick as int == bypass_fields_after(
                        old(self).bypassed,
                        old(self).bypass_declick_frames_left as int,
                        old(self).bypass_declick as int,
                        old(self).bypass_declick_frames as int,
                        old(self).channel.shared_state.bypassed,
                        proc_info.frames as int,
                    ).2
                }
            },
    {
        // Assemble this cycle's input events from all sources.
        let r = self.gather_in_events(proc_info, event_buffers);
        let has_note_in_event = r.0;
        let has_param_in_event = r.1;

        // Quiet-input fast path: a plugin that only runs while fed signal is
        // put to sleep when this cycle is exactly silent.
        if self.processing_state == ProcessingState::Started(ProcessStatus::ContinueIfNotQuiet)
            && !has_note_in_event && buffers.audio_inputs_silent(pool, proc_info.frames) {
            self.plugin.stop_processing();
            self.processing_state = ProcessingState::Stopped;
            buffers.clear_all_outputs(pool, proc_info.frames);
            if has_param_in_event {
                // Automation keeps applying even while the plugin sleeps.
                self.plugin.param_flush(&self.in_events, &mut self.out_events);
            }
            self.in_events.clear();
            proof {
                buffers.lemma_outputs_cleared_shape(old(pool)@, pool@, proc_info.frames as int);
            }
            return ;
        }

        // Wake path.
        if self.processing_state == ProcessingState::Stopped || self.processing_state
            == ProcessingState::WaitingForStart {
            if self.processing_state == ProcessingState::Stopped && !has_note_in_event {
                // Asleep, no wake request, nothing to play.
                buffers.clear_all_outputs(pool, proc_info.frames);
                if has_param_in_event {
                    self.plugin.param_flush(&self.in_events, &mut self.out_events);
                }
                self.in_events.clear();
                proof {
                    buffers.lemma_outputs_cleared_shape(
                        old(pool)@,
                        pool@,
                        proc_info.frames as int,
                    );
                }
                return ;
            }

            match self.plugin.start_processing() {
                Err(_) => {
                    // The plugin refused to start: sticky error.
                    self.processing_state = ProcessingState::Errored;
                    buffers.clear_all_outputs(pool, proc_info.frames);
                    if has_param_in_event {
                        self.plugin.param_flush(&self.in_events, &mut self.out_events);
                    }
                    proof {
                        buffers.lemma_outputs_cleared_shape(
                            old(pool)@,
                            pool@,
                            proc_info.frames as int,
                        );
                    }
                    return ;
                },
                Ok(_) => {},
            }
            self.channel.shared_state.set_active_state(PluginActiveState::Active);
        }

        // The plugin's per-cycle transform.
        self.out_events.clear();
        let ghost pool_before = pool@;
        let new_status = if let Some(automation_out) = &mut event_buffers.automation_out_buffer {
            self.plugin.process_with_automation_out(
                proc_info,
                pool,
                buffers,
                &self.in_events,
                &mut self.out_events,
                automation_out,
            )
        } else {
            self.plugin.process(proc_info, pool, buffers, &self.in_events, &mut self.out_events)
        };
        proof {
            buffers.lemma_wf_preserved_by_shape(pool_before, pool@, proc_info.frames as int);
        }

        // Route output events: notes downstream, sanitized parameter changes
        // toward the control context.
        let mut params = event_buffers.read_output_events(
            &self.out_events,
            &mut self.event_output_sanitizer,
        );
        if let Some(q) = &mut self.channel.param_queues {
            q.to_main.append(&mut params);
        }

        // Update the state machine from the reported status.
        let ghost pool_after_plugin = pool@;
        match new_status {
            ProcessStatus::Sleep => {
                self.plugin.stop_processing();
                self.processing_state = ProcessingState::Stopped;
            },
            ProcessStatus::Error => {
                // Discard whatever the failing cycle produced.
                buffers.clear_all_outputs(pool, proc_info.frames);
                self.processing_state = ProcessingState::Errored;
                proof {
                    buffers.lemma_outputs_cleared_shape(
                        pool_after_plugin,
                        pool@,
                        proc_info.frames as int,
                    );
                    buffers.lemma_wf_preserved_by_shape(
                        pool_after_plugin,
                        pool@,
                        proc_info.frames as int,
                    );
                }
            },
            good_status => {
                self.processing_state = ProcessingState::Started(good_status);
            },
        }

        // Bypass handling comes last and may override the plugin's output.
        self.apply_bypass(proc_info, pool, buffers);
    }

    /// One cycle of the per-plugin state machine. Returns true exactly when
    /// the control context had requested the drop: the processor then stops
    /// the plugin, clears its outputs, signals `DroppedAndReadyToDeactivate`,
    /// and the caller removes it from the schedule.
    pub fn process(
        &mut self,
        proc_info: &ProcInfo,
        pool: &mut Vec<SharedBuffer<i32>>,
        buffers: &ProcBuffers,
        event_buffers: &mut PluginEventIoBuffers,
    ) -> (dropped: bool)
        requires
            old(self).wf(),
            proc_info.frames >= 1,
            buffers.wf(old(pool)@, proc_info.frames as int),
        ensures
            final(self).wf(),
            pool_shape_preserved(old(pool)@, final(pool)@),
            dropped == (old(self).channel.shared_state.active_state
                == PluginActiveState::WaitingToDrop),
            final(self).plugin_instance_id == old(self).plugin_instance_id,
            final(self).schedule_version == old(self).schedule_version,
            final(self).bypass_declick_frames == old(self).bypass_declick_frames,
            final(self).channel.shared_state.bypassed == old(self).channel.shared_state.bypassed,
            final(self).channel.shared_state.process_requested == old(
                self,
            ).channel.shared_state.process_requested,
            final(self).event_output_sanitizer.num_params() == old(
                self,
            ).event_output_sanitizer.num_params(),
            final(event_buffers).note_in@ == old(event_buffers).note_in@,
            final(event_buffers).automation_in@ == old(event_buffers).automation_in@,
            // Drop requested: teardown handled this cycle.
            old(self).channel.shared_state.active_state == PluginActiveState::WaitingToDrop ==> {
                &&& buffers.outputs_cleared(old(pool)@, final(pool)@, proc_info.frames as int)
                &&& final(self).channel.shared_state.active_state
                    == PluginActiveState::DroppedAndReadyToDeactivate
                &&& final(self).processing_state == old(self).processing_state
                &&& final(self).bypassed == old(self).bypassed
                &&& final(self).bypass_declick_frames_left == old(self).bypass_declick_frames_left
                &&& final(self).bypass_declick == old(self).bypass_declick
            },
            // Stale schedule: frozen until the expected schedule arrives.
            (old(self).channel.shared_state.active_state != PluginActiveState::WaitingToDrop
                && old(self).schedule_version > proc_info.schedule_version) ==> {
                &&& buffers.outputs_cleared(old(pool)@, final(pool)@, proc_info.frames as int)
                &&& *final(self) == *old(self)
            },
            // Sticky error state: silent until externally reactivated.
            (Self::runs_this_cycle(*old(self), *proc_info) && Self::entry_state(*old(self))
                == ProcessingState::Errored) ==> {
                &&& buffers.outputs_cleared(old(pool)@, final(pool)@, proc_info.frames as int)
                &&& *final(self) == *old(self)
            },
            // Quiet-input fast path: the plugin is put to sleep.
            (Self::runs_this_cycle(*old(self), *proc_info) && Self::entry_state(*old(self))
                == ProcessingState::Started(ProcessStatus::ContinueIfNotQuiet) && old(
                event_buffers,
            ).note_in@.len() == 0 && Self::inputs_silent(*buffers, old(pool)@, *proc_info)) ==> {
                &&& buffers.outputs_cleared(old(pool)@, final(pool)@, proc_info.frames as int)
                &&& final(self).processing_state == ProcessingState::Stopped
                &&& final(self).channel.shared_state.active_state == old(
                    self,
                ).channel.shared_state.active_state
                &&& final(self).bypassed == old(self).bypassed
                &&& final(self).bypass_declick_frames_left == old(self).bypass_declick_frames_left
                &&& final(self).in_events@.len() == 0
            },
            // Sleeping with nothing to wake it: stays asleep.
            (Self::runs_this_cycle(*old(self), *proc_info) && Self::entry_state(*old(self))
                == ProcessingState::Stopped && old(event_buffers).note_in@.len() == 0) ==> {
                &&& buffers.outputs_cleared(old(pool)@, final(pool)@, proc_info.frames as int)
                &&& final(self).processing_state == ProcessingState::Stopped
                &&& final(self).channel.shared_state.active_state == old(
                    self,
                ).channel.shared_state.active_state
                &&& final(self).bypassed == old(self).bypassed
                &&& final(self).bypass_declick_frames_left == old(self).bypass_declick_frames_left
                &&& final(self).in_events@.len() == 0
            },
            // Wake or run: either the plugin refused to start, or it ran, its
            // events were routed, and the bypass stage was applied.
            (Self::runs_this_cycle(*old(self), *proc_info) && Self::entry_state(*old(self))
                != ProcessingState::Errored && !(Self::entry_state(*old(self))
                == ProcessingState::Started(ProcessStatus::ContinueIfNotQuiet) && old(
                event_buffers,
            ).note_in@.len() == 0 && Self::inputs_silent(*buffers, old(pool)@, *proc_info)) && !(
            Self::entry_state(*old(self)) == ProcessingState::Stopped && old(
                event_buffers,
            ).note_in@.len() == 0)) ==> {
                ||| {
                    &&& (Self::entry_state(*old(self)) == ProcessingState::Stopped
                        || Self::entry_state(*old(self)) == ProcessingState::WaitingForStart)
                    &&& final(self).processing_state == ProcessingState::Errored
                    &&& buffers.outputs_cleared(old(pool)@, final(pool)@, proc_info.frames as int)
                    &&& final(self).channel.shared_state.active_state == old(
                        self,
                    ).channel.shared_state.active_state
                    &&& final(self).bypassed == old(self).bypassed
                    &&& final(self).bypass_declick == old(self).bypass_declick
                    &&& final(self).bypass_declick_frames_left == old(
                        self,
                    ).bypass_declick_frames_left
                }
                ||| {
                    &&& (final(self).processing_state is Started || final(self).processing_state
                        == ProcessingState::Stopped || final(self).processing_state
                        == ProcessingState::Errored)
                    &&& ((Self::entry_state(*old(self)) == ProcessingState::Stopped
                        || Self::entry_state(*old(self)) == ProcessingState::WaitingForStart)
                        ==> final(self).channel.shared_state.active_state
                        == PluginActiveState::Active)
                    &&& ((Self::entry_state(*old(self)) is Started) ==> final(self).channel.shared_state.active_state == old(
                        self,
                    ).channel.shared_state.active_state)
                    &&& final(self).in_events@ == gathered_in_events(
                        old(self).channel.param_queues,
                        *old(event_buffers),
                        *proc_info,
                    )
                    &&& final(event_buffers).note_out@ == note_events_of(final(self).out_events@)
                    &&& (old(self).channel.param_queues matches Some(q) ==> final(self).channel.param_queues matches Some(q2) && q2.from_main@.len() == 0
                        && q2.to_main@ == q.to_main@ + sanitize_spec(
                        param_events_of(final(self).out_events@),
                        old(self).event_output_sanitizer.num_params(),
                        param_events_of(final(self).out_events@).len() as int,
                    ))
                    &&& (old(self).channel.param_queues is None ==> final(self).channel.param_queues is None)
                    &&& final(self).bypassed == bypass_fields_after(
                        old(self).bypassed,
                        old(self).bypass_declick_frames_left as int,
                        old(self).bypass_declick as int,
                        old(self).bypass_declick_frames as int,
                        old(self).channel.shared_state.bypassed,
                        proc_info.frames as int,
                    ).0
                    &&& final(self).bypass_declick_frames_left as int == bypass_fields_after(
                        old(self).bypassed,
                        old(self).bypass_declick_frames_left as int,
                        old(self).bypass_declick as int,
                        old(self).bypass_declick_frames as int,
                        old(self).channel.shared_state.bypassed,
                        proc_info.frames as int,
                    ).1
                    &&& final(self).bypass_declick as int == bypass_fields_after(
                        old(self).bypassed,
                        old(self).bypass_declick_frames_left as int,
                        old(self).bypass_declick as int,
                        old(self).bypass_declick_frames as int,
                        old(self).channel.shared_state.bypassed,
                        proc_info.frames as int,
                    ).2
                }
            },
    {
        // Always clear event and note output buffers.
        event_buffers.clear_before_process();

        let state = self.channel.shared_state.get_active_state();

        if state == PluginActiveState::WaitingToDrop {
            // The control context wants this processor gone: tear down here,
            // then signal completion.
            if let ProcessingState::Started(_) = self.processing_state {
                self.plugin.stop_processing();
            }
            buffers.clear_all_outputs(pool, proc_info.frames);
            self.channel.shared_state.set_active_state(
                PluginActiveState::DroppedAndReadyToDeactivate,
            );
            proof {
                buffers.lemma_outputs_cleared_shape(old(pool)@, pool@, proc_info.frames as int);
            }
            return true;
        } else if self.schedule_version > proc_info.schedule_version {
            // Still running an old schedule while a newer one is swapped in:
            // stay frozen until the expected schedule arrives.
            buffers.clear_all_outputs(pool, proc_info.frames);
            proof {
                buffers.lemma_outputs_cleared_shape(old(pool)@, pool@, proc_info.frames as int);
            }
            return false;
        } else if self.channel.shared_state.process_requested() {
            if let ProcessingState::Started(_) = self.processing_state {
            } else {
                self.processing_state = ProcessingState::WaitingForStart;
            }
        }

        // A plugin that failed to start cannot be processed.
        if self.processing_state == ProcessingState::Errored {
            buffers.clear_all_outputs(pool, proc_info.frames);
            proof {
                buffers.lemma_outputs_cleared_shape(old(pool)@, pool@, proc_info.frames as int);
            }
            return false;
        }

        self.run_cycle(proc_info, pool, buffers, event_buffers);
        false
    }


    /// The cycle is live: no drop was requested and the schedule is current.
    pub open spec fn runs_this_cycle(s: Self, proc_info: ProcInfo) -> bool {
        &&& s.channel.shared_state.active_state != PluginActiveState::WaitingToDrop
        &&& s.schedule_version <= proc_info.schedule_version
    }

    /// The state the cycle acts on, after the process request is applied.
    pub open spec fn entry_state(s: Self) -> ProcessingState {
        state_after_request(s.processing_state, s.channel.shared_state.process_requested)
    }

    /// Every audio input is exactly silent over this cycle.
    pub open spec fn inputs_silent(
        buffers: ProcBuffers,
        pool: Seq<SharedBuffer<i32>>,
        proc_info: ProcInfo,
    ) -> bool {
        forall|p: int|
            0 <= p < buffers.audio_in@.len() ==> (#[trigger] buffers.audio_in@[p]).silent(
                pool,
                proc_info.frames as int,
            )
    }
}

/// A declick pass never changes the pool's shape.
pub proof fn lemma_declick_applied_shape(
    buffers: ProcBuffers,
    pool0: Seq<SharedBuffer<i32>>,
    pool1: Seq<SharedBuffer<i32>>,
    frames: int,
)
    requires
        exists|entering: bool, d0: int, n: int, m: int|
            declick_applied(buffers, pool0, pool1, entering, d0, n, m, frames),
    ensures
        pool_shape_preserved(pool0, pool1),
{
    let (entering, d0, n, m) = choose|entering: bool, d0: int, n: int, m: int|
        declick_applied(buffers, pool0, pool1, entering, d0, n, m, frames);
    assert forall|b: int| 0 <= b < pool0.len() implies pool1[b]@.len() == pool0[b]@.len() by {
        if buffers.is_out_channel(b) {
            let (p, c) = choose|p: int, c: int|
                buffers.out_pos(p, c) && (#[trigger] buffers.audio_out@[p].channels@[c]) as int
                    == b;
        }
    }
}

/// The bypassed steady state never changes the pool's shape.
pub proof fn lemma_bypassed_applied_shape(
    buffers: ProcBuffers,
    pool0: Seq<SharedBuffer<i32>>,
    pool1: Seq<SharedBuffer<i32>>,
    frames: int,
)
    requires
        bypassed_applied(buffers, pool0, pool1, frames),
    ensures
        pool_shape_preserved(pool0, pool1),
{
    assert forall|b: int| 0 <= b < pool0.len() implies pool1[b]@.len() == pool0[b]@.len() by {
        if buffers.is_out_channel(b) {
            let (p, c) = choose|p: int, c: int|
                buffers.out_pos(p, c) && (#[trigger] buffers.audio_out@[p].channels@[c]) as int
                    == b;
        }
    }
}

/// At the ramp's extremes the crossfade is exact: full weight passes the
/// processed sample through untouched, zero weight yields the dry sample.
pub proof fn lemma_mix_sample_endpoints(a: i32, b: i32, n: int)
    requires
        1 <= n,
    ensures
        crate::bypass::mix_sample(a, b, n, n) == a,
        crate::bypass::mix_sample(a, b, 0, n) == b,
{
    lemma_div_multiples_vanish(a + 0x8000_0000, n);
    assert((a + 0x8000_0000) * n == n * (a + 0x8000_0000)) by (nonlinear_arith);
    assert((b + 0x8000_0000) * n == n * (b + 0x8000_0000)) by (nonlinear_arith);
    assert((a + 0x8000_0000) * 0 == 0) by (nonlinear_arith);
    assert((b + 0x8000_0000) * 0 == 0) by (nonlinear_arith);
    lemma_div_multiples_vanish(b + 0x8000_0000, n);
}

/// One bypass toggle with no ramp in progress starts a fresh ramp of length
/// `n`; held for a whole cycle of at least `n` frames, it makes every paired
/// main-port output sample a convex combination of the processed output and
/// the raw input whose wet weight is strictly monotonic in the ramp position,
/// and from frame `n` on the output is pure passthrough of the input — pure
/// silence on every output channel without a paired input.
pub proof fn lemma_single_bypass_toggle_ramp(
    buffers: ProcBuffers,
    pool0: Seq<SharedBuffer<i32>>,
    pool1: Seq<SharedBuffer<i32>>,
    n: int,
    frames: int,
)
    requires
        declick_applied(buffers, pool0, pool1, true, n, n, n, frames),
        1 <= n <= frames,
    ensures
        // The wet weight starts just below full, falls strictly, and stays a
        // convex coefficient throughout the ramp.
        forall|i: int, j: int|
            0 <= i < j < n ==> crate::bypass::declick_weight(true, n, i)
                > crate::bypass::declick_weight(true, n, j),
        forall|i: int| 0 <= i < n ==> 0 <= #[trigger] crate::bypass::declick_weight(true, n, i) < n,
        // Paired main-port channels: crossfade, then pure passthrough.
        forall|c: int|
            spec_main_through(buffers) && 0 <= c < buffers.audio_out@[0].channels@.len() && c
                < buffers.audio_in@[0].channels@.len() ==> {
                let ch = (#[trigger] buffers.audio_out@[0].channels@[c]) as int;
                let ich = buffers.audio_in@[0].channels@[c] as int;
                &&& forall|i: int|
                    0 <= i < n ==> pool1[ch]@[i] == crate::bypass::mix_sample(
                        pool0[ch]@[i],
                        pool0[ich]@[i],
                        crate::bypass::declick_weight(true, n, i),
                        n,
                    )
                &&& forall|i: int| n <= i < frames ==> pool1[ch]@[i] == pool0[ich]@[i]
            },
        // Every other output channel ramps to exact silence.
        forall|p: int, c: int|
            buffers.out_pos(p, c) && !(spec_main_through(buffers) && p == 0 && c
                < buffers.audio_in@[0].channels@.len()) ==> {
                let ch = (#[trigger] buffers.audio_out@[p].channels@[c]) as int;
                forall|i: int| n <= i < frames ==> pool1[ch]@[i] == 0i32
            },
{
    assert forall|p: int, c: int|
        buffers.out_pos(p, c) && !(spec_main_through(buffers) && p == 0 && c
            < buffers.audio_in@[0].channels@.len()) implies {
        let ch = (#[trigger] buffers.audio_out@[p].channels@[c]) as int;
        forall|i: int| n <= i < frames ==> pool1[ch]@[i] == 0i32
    } by {
        let ch = buffers.audio_out@[p].channels@[c] as int;
        assert(channel_declicked(pool0[ch], zero_samples(frames), pool1[ch], true, n, n, n, frames));
        assert forall|i: int| n <= i < frames implies pool1[ch]@[i] == 0i32 by {
            assert(pool1[ch]@[i] == zero_samples(frames)[i]);
        }
    }
}

} // verus!
