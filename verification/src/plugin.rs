//! Plugin-facing data and a built-in plugin.
//!
//! `PluginDescriptor` is what a scanner reports about a plugin binary. The
//! passthrough plugin is a built-in instance of the audio-context plugin
//! contract: it copies its main input port to its main output port and echoes
//! its input events, which makes it a convenient end-to-end exercise of the
//! host processor.

use vstd::prelude::*;

use crate::buffer::SharedBuffer;
use crate::bypass::passthrough_channel;
use crate::events::{AutomationIoEvent, PluginIoEvent};
use crate::port::{pool_shape_preserved, ProcBuffers};
use crate::processor::{PluginProcessThread, ProcInfo, ProcessStatus};

verus! {

/// The description of a plugin.
#[derive(Clone, Debug)]
pub struct PluginDescriptor {
    /// The unique reverse-domain-name identifier of this plugin.
    pub id: String,
    /// The displayable name of this plugin.
    pub name: String,
    /// The vendor of this plugin.
    pub vendor: String,
    /// The version of this plugin.
    pub version: String,
    /// A displayable short description of this plugin.
    pub description: String,
    /// Arbitrary list of keywords, separated by `;`.
    pub features: Option<String>,
    /// The url to the product page of this plugin.
    pub url: Option<String>,
    /// The url to the online manual for this plugin.
    pub manual_url: Option<String>,
    /// The url to the online support page for this plugin.
    pub support_url: Option<String>,
}

/// A built-in plugin that passes its main audio port through unchanged and
/// echoes every input event to its output.
pub struct PassthroughPlugin {
    /// Whether the host has started processing; mirrors the start/stop calls.
    pub processing: bool,
}

impl PassthroughPlugin {
    pub fn new() -> (r: Self)
        ensures
            !r.processing,
    {
        PassthroughPlugin { processing: false }
    }
}

impl PluginProcessThread for PassthroughPlugin {
    fn start_processing(&mut self) -> (r: Result<(), ()>) {
        self.processing = true;
        Ok(())
    }

    fn stop_processing(&mut self) {
        self.processing = false;
    }

    fn process(
        &mut self,
        proc_info: &ProcInfo,
        pool: &mut Vec<SharedBuffer<i32>>,
        buffers: &ProcBuffers,
        in_events: &Vec<PluginIoEvent>,
        out_events: &mut Vec<PluginIoEvent>,
    ) -> (status: ProcessStatus) {
        let n = in_events.len();
        let mut i: usize = 0;
        while i < n
            invariant
                i <= n,
                n == in_events@.len(),
                pool@ == old(pool)@,
            decreases n - i,
        {
            out_events.push(in_events[i]);
            i = i + 1;
        }

        if buffers.audio_in.len() >= 1 && buffers.audio_out.len() >= 1 {
            let in_port = &buffers.audio_in[0];
            let out_port = &buffers.audio_out[0];
            let paired = if in_port.channels.len() < out_port.channels.len() {
                in_port.channels.len()
            } else {
                out_port.channels.len()
            };
            let mut c: usize = 0;
            while c < paired
                invariant
                    c <= paired,
                    paired <= in_port.channels@.len(),
                    paired <= out_port.channels@.len(),
                    in_port == buffers.audio_in@[0],
                    out_port == buffers.audio_out@[0],
                    buffers.audio_in@.len() >= 1,
                    buffers.audio_out@.len() >= 1,
                    buffers.wf(old(pool)@, proc_info.frames as int),
                    pool_shape_preserved(old(pool)@, pool@),
                decreases paired - c,
            {
                let out_ch = out_port.channels[c];
                let in_ch = in_port.channels[c];
                proof {
                    assert(buffers.audio_in@[0].channels@[c as int]
                        != buffers.audio_out@[0].channels@[c as int]);
                }
                passthrough_channel(pool, out_ch, in_ch, proc_info.frames);
            c = c + 1;
            }
        }
        ProcessStatus::Continue
    }

    fn process_with_automation_out(
        &mut self,
        proc_info: &ProcInfo,
        pool: &mut Vec<SharedBuffer<i32>>,
        buffers: &ProcBuffers,
        in_events: &Vec<PluginIoEvent>,
        out_events: &mut Vec<PluginIoEvent>,
        automation_out: &mut Vec<AutomationIoEvent>,
    ) -> (status: ProcessStatus) {
        self.process(proc_info, pool, buffers, in_events, out_events)
    }

    fn param_flush(
        &mut self,
        in_events: &Vec<PluginIoEvent>,
        out_events: &mut Vec<PluginIoEvent>,
    ) {
    }
}

} // verus!
