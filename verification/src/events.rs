//! Event records flowing through the graph.
//!
//! Values that the host protocol carries as floating point (parameter values,
//! velocities) are fixed-point integers here; the shell converts at the edge.

use vstd::prelude::*;

verus! {

/// What a note event does.
#[derive(Clone, Copy, PartialEq, Eq, Debug, Structural)]
pub enum NoteEventType {
    On,
    Off,
    Choke,
}

/// A note event as it travels between plugins.
#[derive(Clone, Copy, PartialEq, Eq, Debug, Structural)]
pub struct NoteIoEvent {
    /// Offset of the event inside the cycle, in frames.
    pub frame: u32,
    pub channel: i16,
    pub key: i16,
    pub event_type: NoteEventType,
    /// Fixed-point velocity.
    pub velocity: u32,
}

/// A parameter-automation event as it travels between plugins.
#[derive(Clone, Copy, PartialEq, Eq, Debug, Structural)]
pub struct AutomationIoEvent {
    /// Offset of the event inside the cycle, in frames.
    pub frame: u32,
    pub parameter_id: u32,
    /// Fixed-point parameter value.
    pub value: i64,
}

/// A transport-position event, delivered when the transport moved this cycle.
#[derive(Clone, Copy, PartialEq, Eq, Debug, Structural)]
pub struct TransportIoEvent {
    /// Song position at the start of the cycle, in frames.
    pub song_pos_frames: i64,
    pub is_playing: bool,
}

/// One entry of a plugin's input or output event scratch buffer.
#[derive(Clone, Copy, PartialEq, Eq, Debug, Structural)]
pub enum PluginIoEvent {
    Param(AutomationIoEvent),
    Note(NoteIoEvent),
    Transport(TransportIoEvent),
}

/// The note events of a scratch buffer, in order.
pub open spec fn note_events_of(s: Seq<PluginIoEvent>) -> Seq<NoteIoEvent>
    decreases s.len(),
{
    if s.len() == 0 {
        Seq::<NoteIoEvent>::empty()
    } else {
        let rest = note_events_of(s.drop_last());
        match s.last() {
            PluginIoEvent::Note(n) => rest.push(n),
            _ => rest,
        }
    }
}

/// The parameter events of a scratch buffer, in order.
pub open spec fn param_events_of(s: Seq<PluginIoEvent>) -> Seq<AutomationIoEvent>
    decreases s.len(),
{
    if s.len() == 0 {
        Seq::<AutomationIoEvent>::empty()
    } else {
        let rest = param_events_of(s.drop_last());
        match s.last() {
            PluginIoEvent::Param(p) => rest.push(p),
            _ => rest,
        }
    }
}

/// Event `i` survives sanitizing: its parameter id is known and no earlier
/// event this cycle carried the same id.
pub open spec fn sanitize_keeps(evs: Seq<AutomationIoEvent>, num_params: int, i: int) -> bool {
    &&& (evs[i].parameter_id as int) < num_params
    &&& forall|j: int| 0 <= j < i ==> (#[trigger] evs[j]).parameter_id != evs[i].parameter_id
}

/// The first `k` events filtered down to those that survive sanitizing.
pub open spec fn sanitize_spec(evs: Seq<AutomationIoEvent>, num_params: int, k: int) -> Seq<
    AutomationIoEvent,
>
    decreases k,
{
    if k <= 0 {
        Seq::<AutomationIoEvent>::empty()
    } else {
        let prev = sanitize_spec(evs, num_params, k - 1);
        if sanitize_keeps(evs, num_params, k - 1) {
            prev.push(evs[k - 1])
        } else {
            prev
        }
    }
}

/// Discards malformed parameter output events before they are forwarded to
/// the control context: events with an out-of-range parameter id, and
/// duplicates of an id already emitted in the same cycle.
pub struct PluginEventOutputSanitizer {
    seen: Vec<bool>,
}

impl PluginEventOutputSanitizer {
    /// How many parameter ids the plugin declared.
    pub closed spec fn num_params(&self) -> int {
        self.seen@.len() as int
    }

    pub fn new(num_params: usize) -> (r: Self)
        ensures
            r.num_params() == num_params,
    {
        let mut seen: Vec<bool> = Vec::with_capacity(num_params);
        let mut i: usize = 0;
        while i < num_params
            invariant
                i <= num_params,
                seen@.len() == i,
            decreases num_params - i,
        {
            seen.push(false);
            i = i + 1;
        }
        PluginEventOutputSanitizer { seen }
    }

    /// Filters one cycle's parameter output events, keeping the first event
    /// for each known parameter id and discarding the rest.
    pub fn sanitize(&mut self, evs: &Vec<AutomationIoEvent>) -> (out: Vec<AutomationIoEvent>)
        ensures
            out@ == sanitize_spec(evs@, old(self).num_params(), evs@.len() as int),
            final(self).num_params() == old(self).num_params(),
    {
        let np = self.seen.len();
        let mut i: usize = 0;
        while i < np
            invariant
                i <= np,
                np == self.seen@.len(),
                forall|p: int| 0 <= p < i ==> !(#[trigger] self.seen@[p]),
            decreases np - i,
        {
            self.seen.set(i, false);
            i = i + 1;
        }

        let n = evs.len();
        let mut out: Vec<AutomationIoEvent> = Vec::new();
        let mut k: usize = 0;
        while k < n
            invariant
                k <= n,
                n == evs@.len(),
                np == self.seen@.len(),
                out@ == sanitize_spec(evs@, np as int, k as int),
                forall|p: int|
                    0 <= p < np
                        ==> ((#[trigger] self.seen@[p]) <==> exists|j: int|
                            0 <= j < k && (#[trigger] evs@[j]).parameter_id == p),
            decreases n - k,
        {
            let e = evs[k];
            let id = e.parameter_id as usize;
            if id < np && !self.seen[id] {
                self.seen.set(id, true);
                out.push(e);
                proof {
                    assert(sanitize_keeps(evs@, np as int, k as int));
                }
            } else {
                proof {
                    if id < np {
                        assert(!sanitize_keeps(evs@, np as int, k as int)) by {
                            let j = choose|j: int|
                                0 <= j < k && (#[trigger] evs@[j]).parameter_id == id;
                            assert(evs@[j].parameter_id == evs@[k as int].parameter_id);
                        }
                    }
                }
            }
            k = k + 1;
        }
        out
    }
}

/// The per-instance event scratch buffers a plugin processor reads and fills
/// each cycle.
pub struct PluginEventIoBuffers {
    /// Note events merged by upstream sum tasks for this cycle.
    pub note_in: Vec<NoteIoEvent>,
    /// Note events the plugin emitted this cycle.
    pub note_out: Vec<NoteIoEvent>,
    /// Parameter-automation events delivered via upstream sum tasks.
    pub automation_in: Vec<AutomationIoEvent>,
    /// Present when the plugin supports emitting automation events; the
    /// plugin's per-cycle transform fills it.
    pub automation_out_buffer: Option<Vec<AutomationIoEvent>>,
}

impl PluginEventIoBuffers {
    /// Empties the output buffers; input buffers are untouched.
    pub fn clear_before_process(&mut self)
        ensures
            final(self).note_in@ == old(self).note_in@,
            final(self).automation_in@ == old(self).automation_in@,
            final(self).note_out@ == Seq::<NoteIoEvent>::empty(),
            final(self).automation_out_buffer is Some <==> old(self).automation_out_buffer
                is Some,
            final(self).automation_out_buffer matches Some(b) ==> b@ == Seq::<
                AutomationIoEvent,
            >::empty(),
    {
        self.note_out.clear();
        if let Some(b) = &mut self.automation_out_buffer {
            b.clear();
        }
    }

    /// Appends this cycle's parameter events, then its note events, to the
    /// plugin's input scratch buffer; reports whether a note event and
    /// whether a parameter event arrived.
    pub fn write_input_events(&self, in_events: &mut Vec<PluginIoEvent>) -> (r: (bool, bool))
        ensures
            final(in_events)@ == old(in_events)@ + self.automation_in@.map_values(
                |e: AutomationIoEvent| PluginIoEvent::Param(e),
            ) + self.note_in@.map_values(|e: NoteIoEvent| PluginIoEvent::Note(e)),
            r.0 == (self.note_in@.len() > 0),
            r.1 == (self.automation_in@.len() > 0),
    {
        let np = self.automation_in.len();
        let mut i: usize = 0;
        while i < np
            invariant
                i <= np,
                np == self.automation_in@.len(),
                in_events@ == old(in_events)@ + self.automation_in@.subrange(
                    0,
                    i as int,
                ).map_values(|e: AutomationIoEvent| PluginIoEvent::Param(e)),
            decreases np - i,
        {
            let e = self.automation_in[i];
            in_events.push(PluginIoEvent::Param(e));
            proof {
                assert(self.automation_in@.subrange(0, i + 1).map_values(
                    |ev: AutomationIoEvent| PluginIoEvent::Param(ev),
                ) =~= self.automation_in@.subrange(0, i as int).map_values(
                    |ev: AutomationIoEvent| PluginIoEvent::Param(ev),
                ).push(PluginIoEvent::Param(e)));
            }
            i = i + 1;
        }
        proof {
            assert(self.automation_in@.subrange(0, np as int) =~= self.automation_in@);
        }

        let nn = self.note_in.len();
        let mut j: usize = 0;
        while j < nn
            invariant
                j <= nn,
                nn == self.note_in@.len(),
                in_events@ == old(in_events)@ + self.automation_in@.map_values(
                    |e: AutomationIoEvent| PluginIoEvent::Param(e),
                ) + self.note_in@.subrange(0, j as int).map_values(
                    |e: NoteIoEvent| PluginIoEvent::Note(e),
                ),
            decreases nn - j,
        {
            let e = self.note_in[j];
            in_events.push(PluginIoEvent::Note(e));
            proof {
                assert(self.note_in@.subrange(0, j + 1).map_values(
                    |ev: NoteIoEvent| PluginIoEvent::Note(ev),
                ) =~= self.note_in@.subrange(0, j as int).map_values(
                    |ev: NoteIoEvent| PluginIoEvent::Note(ev),
                ).push(PluginIoEvent::Note(e)));
                assert(in_events@ =~= old(in_events)@ + self.automation_in@.map_values(
                    |ev: AutomationIoEvent| PluginIoEvent::Param(ev),
                ) + self.note_in@.subrange(0, j + 1).map_values(
                    |ev: NoteIoEvent| PluginIoEvent::Note(ev),
                ));
            }
            j = j + 1;
        }
        proof {
            assert(self.note_in@.subrange(0, nn as int) =~= self.note_in@);
        }
        (nn > 0, np > 0)
    }

    /// Routes the plugin's output events: note events are appended to the
    /// note output buffer in order, and the parameter events are returned
    /// after passing through the output sanitizer.
    pub fn read_output_events(
        &mut self,
        out_events: &Vec<PluginIoEvent>,
        sanitizer: &mut PluginEventOutputSanitizer,
    ) -> (params: Vec<AutomationIoEvent>)
        ensures
            final(self).note_in@ == old(self).note_in@,
            final(self).automation_in@ == old(self).automation_in@,
            final(self).automation_out_buffer == old(self).automation_out_buffer,
            final(self).note_out@ == old(self).note_out@ + note_events_of(out_events@),
            params@ == sanitize_spec(
                param_events_of(out_events@),
                old(sanitizer).num_params(),
                param_events_of(out_events@).len() as int,
            ),
            final(sanitizer).num_params() == old(sanitizer).num_params(),
    {
        let n = out_events.len();
        let mut raw_params: Vec<AutomationIoEvent> = Vec::new();
        let mut i: usize = 0;
        while i < n
            invariant
                i <= n,
                n == out_events@.len(),
                self.note_in@ == old(self).note_in@,
                self.automation_in@ == old(self).automation_in@,
                self.automation_out_buffer == old(self).automation_out_buffer,
                self.note_out@ == old(self).note_out@ + note_events_of(
                    out_events@.subrange(0, i as int),
                ),
                raw_params@ == param_events_of(out_events@.subrange(0, i as int)),
            decreases n - i,
        {
            let e = out_events[i];
            proof {
                assert(out_events@.subrange(0, i + 1).drop_last() =~= out_events@.subrange(
                    0,
                    i as int,
                ));
                assert(out_events@.subrange(0, i + 1).last() == e);
            }
            match e {
                PluginIoEvent::Note(note) => {
                    self.note_out.push(note);
                },
                PluginIoEvent::Param(param) => {
                    raw_params.push(param);
                },
                PluginIoEvent::Transport(_) => {},
            }
            i = i + 1;
        }
        proof {
            assert(out_events@.subrange(0, n as int) =~= out_events@);
        }
        sanitizer.sanitize(&raw_params)
    }
}

} // verus!
