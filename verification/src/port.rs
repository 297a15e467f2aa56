//! Audio port views.
//!
//! A port groups channel buffers (addressed by pool index) with a latency.
//! `ProcBuffers` is the per-cycle bundle a plugin processor consumes: input
//! ports, output ports, and the policy flag saying whether the main port
//! passes audio through while bypassed.

use vstd::prelude::*;

use crate::buffer::{buf_mut, SharedBuffer};

verus! {

use vstd::math::min;

/// One buffer after a clearing pass: its first `frames` samples are zero
/// (clamped to its length), the rest untouched, and the constant hint is set.
pub open spec fn buffer_cleared(b0: SharedBuffer<i32>, b1: SharedBuffer<i32>, frames: int) -> bool {
    &&& b1@.len() == b0@.len()
    &&& forall|j: int| 0 <= j < min(frames, b0@.len() as int) ==> b1@[j] == 0i32
    &&& forall|j: int| min(frames, b0@.len() as int) <= j < b0@.len() ==> b1@[j] == b0@[j]
    &&& b1.constant_hint()
    &&& b1.spec_id() == b0.spec_id()
}

/// The pool has the same number of buffers and every buffer the same length
/// as before; what a plugin's transform is relied on to preserve.
pub open spec fn pool_shape_preserved(p0: Seq<SharedBuffer<i32>>, p1: Seq<SharedBuffer<i32>>) -> bool {
    &&& p1.len() == p0.len()
    &&& forall|b: int| 0 <= b < p0.len() ==> p1[b]@.len() == p0[b]@.len()
}

/// An ordered group of channel buffers making up one audio port.
pub struct AudioPortBuffer {
    /// Pool indices of the channel buffers.
    pub channels: Vec<usize>,
    /// The port's latency in frames.
    pub latency: u32,
}

impl AudioPortBuffer {
    /// Every channel index is in bounds and its buffer covers the cycle.
    pub open spec fn wf(&self, pool: Seq<SharedBuffer<i32>>, frames: int) -> bool {
        forall|c: int|
            0 <= c < self.channels@.len() ==> {
                &&& ((#[trigger] self.channels@[c]) as int) < pool.len()
                &&& pool[self.channels@[c] as int]@.len() >= frames
            }
    }

    /// Exact silence: the first `frames` samples of every channel are zero.
    pub open spec fn silent(&self, pool: Seq<SharedBuffer<i32>>, frames: int) -> bool {
        forall|c: int, j: int|
            0 <= c < self.channels@.len() && 0 <= j < frames
                ==> #[trigger] pool[self.channels@[c] as int]@[j] == 0i32
    }

    /// Every channel hints silence: constant hint set and first sample zero.
    pub open spec fn spec_silent_hint(&self, pool: Seq<SharedBuffer<i32>>) -> bool {
        forall|c: int|
            0 <= c < self.channels@.len()
                ==> (#[trigger] pool[self.channels@[c] as int]).constant_hint() && pool[
                self.channels@[c] as int]@[0] == 0i32
    }

    pub fn latency(&self) -> (r: u32)
        ensures
            r == self.latency,
    {
        self.latency
    }

    pub fn channels(&self) -> (r: usize)
        ensures
            r == self.channels@.len(),
    {
        self.channels.len()
    }

    /// Checks whether every channel could be silent, reading only the
    /// constant hints and first samples; may answer false on a port that is
    /// in fact silent, never the other way around when the hints are honest.
    pub fn has_silent_hint(&self, pool: &Vec<SharedBuffer<i32>>) -> (r: bool)
        requires
            self.wf(pool@, 1),
        ensures
            r == self.spec_silent_hint(pool@),
    {
        let n = self.channels.len();
        let mut c: usize = 0;
        while c < n
            invariant
                c <= n,
                n == self.channels@.len(),
                forall|c2: int|
                    0 <= c2 < c
                        ==> (#[trigger] pool@[self.channels@[c2] as int]).constant_hint() && pool@[
                        self.channels@[c2] as int]@[0] == 0i32,
            decreases n - c,
        {
            let ch = self.channels[c];
            if !pool[ch].has_silent_hint() {
                return false;
            }
            c = c + 1;
        }
        true
    }

    /// Exact (non-hint) scan of the first `frames` samples of every channel;
    /// true only if all are zero. Used where correctness, not speed, matters.
    pub fn is_silent(&self, pool: &Vec<SharedBuffer<i32>>, frames: usize) -> (r: bool)
        requires
            self.wf(pool@, frames as int),
        ensures
            r == self.silent(pool@, frames as int),
    {
        let n = self.channels.len();
        let mut c: usize = 0;
        while c < n
            invariant
                c <= n,
                n == self.channels@.len(),
                forall|c2: int, j: int|
                    0 <= c2 < c && 0 <= j < frames
                        ==> #[trigger] pool@[self.channels@[c2] as int]@[j] == 0i32,
            decreases n - c,
        {
            let ch = self.channels[c];
            let mut j: usize = 0;
            while j < frames
                invariant
                    j <= frames,
                    ch == self.channels@[c as int],
                    c < n,
                    forall|i: int| 0 <= i < j ==> pool@[ch as int]@[i] == 0i32,
                decreases frames - j,
            {
                if *pool[ch].get(j) != 0i32 {
                    return false;
                }
                j = j + 1;
            }
            c = c + 1;
        }
        true
    }
}

/// The per-cycle buffer bundle a plugin processor consumes.
pub struct ProcBuffers {
    pub audio_in: Vec<AudioPortBuffer>,
    pub audio_out: Vec<AudioPortBuffer>,
    /// When set, the first input/output port pair keeps carrying audio while
    /// the plugin is bypassed; otherwise every output ramps to silence.
    pub main_audio_through_when_bypassed: bool,
}

impl ProcBuffers {
    /// `(p, c)` is a valid output channel position.
    pub open spec fn out_pos(&self, p: int, c: int) -> bool {
        0 <= p < self.audio_out@.len() && 0 <= c < self.audio_out@[p].channels@.len()
    }

    /// Buffer `b` backs some output channel.
    pub open spec fn is_out_channel(&self, b: int) -> bool {
        exists|p: int, c: int|
            self.out_pos(p, c) && (#[trigger] self.audio_out@[p].channels@[c]) as int == b
    }

    /// Buffer `b` backs an output channel strictly before position `(p, c)`.
    pub open spec fn out_pos_before(&self, p: int, c: int, b: int) -> bool {
        exists|p2: int, c2: int|
            self.out_pos(p2, c2) && (p2 < p || (p2 == p && c2 < c)) && (
            #[trigger] self.audio_out@[p2].channels@[c2]) as int == b
    }

    /// No two output channels share a buffer.
    pub open spec fn out_channels_distinct(&self) -> bool {
        forall|p1: int, c1: int, p2: int, c2: int|
            self.out_pos(p1, c1) && self.out_pos(p2, c2) && (p1 != p2 || c1 != c2)
                ==> (#[trigger] self.audio_out@[p1].channels@[c1]) != (
                #[trigger] self.audio_out@[p2].channels@[c2])
    }

    /// No input channel shares a buffer with an output channel.
    pub open spec fn in_out_disjoint(&self) -> bool {
        forall|p1: int, c1: int, p2: int, c2: int|
            0 <= p1 < self.audio_in@.len() && 0 <= c1 < self.audio_in@[p1].channels@.len()
                && self.out_pos(p2, c2)
                ==> (#[trigger] self.audio_in@[p1].channels@[c1]) != (
                #[trigger] self.audio_out@[p2].channels@[c2])
    }

    /// Ports in bounds and sized for the cycle, outputs pairwise distinct and
    /// disjoint from inputs.
    pub open spec fn wf(&self, pool: Seq<SharedBuffer<i32>>, frames: int) -> bool {
        &&& forall|p: int|
            0 <= p < self.audio_in@.len() ==> (#[trigger] self.audio_in@[p]).wf(pool, frames)
        &&& forall|p: int|
            0 <= p < self.audio_out@.len() ==> (#[trigger] self.audio_out@[p]).wf(pool, frames)
        &&& self.out_channels_distinct()
        &&& self.in_out_disjoint()
    }

    /// The pool after a pass that cleared every output channel over the
    /// cycle's frames and left everything else untouched.
    pub open spec fn outputs_cleared(
        &self,
        pool0: Seq<SharedBuffer<i32>>,
        pool1: Seq<SharedBuffer<i32>>,
        frames: int,
    ) -> bool {
        &&& pool1.len() == pool0.len()
        &&& forall|b: int| 0 <= b < pool0.len() && !self.is_out_channel(b) ==> pool1[b] == pool0[b]
        &&& forall|p: int, c: int|
            self.out_pos(p, c) ==> buffer_cleared(
                pool0[(#[trigger] self.audio_out@[p].channels@[c]) as int],
                pool1[self.audio_out@[p].channels@[c] as int],
                frames,
            )
    }

    /// A clearing pass never changes the pool's shape.
    pub proof fn lemma_outputs_cleared_shape(
        &self,
        p0: Seq<SharedBuffer<i32>>,
        p1: Seq<SharedBuffer<i32>>,
        frames: int,
    )
        requires
            self.outputs_cleared(p0, p1, frames),
        ensures
            pool_shape_preserved(p0, p1),
    {
        assert forall|b: int| 0 <= b < p0.len() implies p1[b]@.len() == p0[b]@.len() by {
            if self.is_out_channel(b) {
                let (p, c) = choose|p: int, c: int|
                    self.out_pos(p, c) && (#[trigger] self.audio_out@[p].channels@[c]) as int
                        == b;
            }
        }
    }

    /// Well-formedness only reads buffer counts and lengths, so a transform
    /// that preserves the pool's shape preserves it.
    pub proof fn lemma_wf_preserved_by_shape(
        &self,
        p0: Seq<SharedBuffer<i32>>,
        p1: Seq<SharedBuffer<i32>>,
        frames: int,
    )
        requires
            self.wf(p0, frames),
            pool_shape_preserved(p0, p1),
        ensures
            self.wf(p1, frames),
    {
    }

    /// Advancing one channel position extends the set of buffers behind it by
    /// exactly the channel at the current position.
    pub proof fn lemma_out_pos_before_step(&self, p: int, c: int, b: int)
        requires
            self.out_pos(p, c),
        ensures
            self.out_pos_before(p, c + 1, b) <==> (self.out_pos_before(p, c, b)
                || self.audio_out@[p].channels@[c] as int == b),
    {
        if self.out_pos_before(p, c + 1, b) {
            let (p2, c2) = choose|p2: int, c2: int|
                self.out_pos(p2, c2) && (p2 < p || (p2 == p && c2 < c + 1)) && (
                #[trigger] self.audio_out@[p2].channels@[c2]) as int == b;
            if !(p2 == p && c2 == c) {
                assert(self.out_pos_before(p, c, b));
            }
        }
        if self.out_pos_before(p, c, b) {
            let (p2, c2) = choose|p2: int, c2: int|
                self.out_pos(p2, c2) && (p2 < p || (p2 == p && c2 < c)) && (
                #[trigger] self.audio_out@[p2].channels@[c2]) as int == b;
            assert(self.out_pos_before(p, c + 1, b));
        }
        if self.audio_out@[p].channels@[c] as int == b {
            assert(self.out_pos_before(p, c + 1, b));
        }
    }

    /// Standing at the start of port `p + 1` covers the same buffers as
    /// standing past the last channel of port `p`.
    pub proof fn lemma_out_pos_before_port_step(&self, p: int, b: int)
        requires
            0 <= p < self.audio_out@.len(),
        ensures
            self.out_pos_before(p + 1, 0, b) <==> self.out_pos_before(
                p,
                self.audio_out@[p].channels@.len() as int,
                b,
            ),
    {
        let nc = self.audio_out@[p].channels@.len() as int;
        if self.out_pos_before(p + 1, 0, b) {
            let (p2, c2) = choose|p2: int, c2: int|
                self.out_pos(p2, c2) && (p2 < p + 1 || (p2 == p + 1 && c2 < 0)) && (
                #[trigger] self.audio_out@[p2].channels@[c2]) as int == b;
            assert(self.out_pos_before(p, nc, b));
        }
        if self.out_pos_before(p, nc, b) {
            let (p2, c2) = choose|p2: int, c2: int|
                self.out_pos(p2, c2) && (p2 < p || (p2 == p && c2 < nc)) && (
                #[trigger] self.audio_out@[p2].channels@[c2]) as int == b;
            assert(self.out_pos_before(p + 1, 0, b));
        }
    }

    /// Standing past the last port covers exactly the output channels.
    pub proof fn lemma_out_pos_before_end(&self, b: int)
        ensures
            self.out_pos_before(self.audio_out@.len() as int, 0, b) <==> self.is_out_channel(b),
    {
        let np = self.audio_out@.len() as int;
        if self.out_pos_before(np, 0, b) {
            let (p2, c2) = choose|p2: int, c2: int|
                self.out_pos(p2, c2) && (p2 < np || (p2 == np && c2 < 0)) && (
                #[trigger] self.audio_out@[p2].channels@[c2]) as int == b;
            assert(self.is_out_channel(b));
        }
        if self.is_out_channel(b) {
            let (p2, c2) = choose|p2: int, c2: int|
                self.out_pos(p2, c2) && (#[trigger] self.audio_out@[p2].channels@[c2]) as int
                    == b;
            assert(self.out_pos_before(np, 0, b));
        }
    }

    /// An output channel at or past the current position is not behind it.
    pub proof fn lemma_later_out_channel_not_before(&self, p: int, c: int, pp: int, cc: int)
        requires
            self.out_channels_distinct(),
            self.out_pos(pp, cc),
            pp > p || (pp == p && cc >= c),
        ensures
            !self.out_pos_before(p, c, self.audio_out@[pp].channels@[cc] as int),
    {
        let b = self.audio_out@[pp].channels@[cc] as int;
        if self.out_pos_before(p, c, b) {
            let (p2, c2) = choose|p2: int, c2: int|
                self.out_pos(p2, c2) && (p2 < p || (p2 == p && c2 < c)) && (
                #[trigger] self.audio_out@[p2].channels@[c2]) as int == b;
            assert(self.audio_out@[p2].channels@[c2] != self.audio_out@[pp].channels@[cc]);
        }
    }

    /// An input channel never backs an output channel.
    pub proof fn lemma_in_channel_not_out(&self, pi: int, ci: int)
        requires
            self.in_out_disjoint(),
            0 <= pi < self.audio_in@.len(),
            0 <= ci < self.audio_in@[pi].channels@.len(),
        ensures
            !self.is_out_channel(self.audio_in@[pi].channels@[ci] as int),
    {
        let b = self.audio_in@[pi].channels@[ci] as int;
        if self.is_out_channel(b) {
            let (p2, c2) = choose|p2: int, c2: int|
                self.out_pos(p2, c2) && (#[trigger] self.audio_out@[p2].channels@[c2]) as int
                    == b;
            assert(self.audio_in@[pi].channels@[ci] != self.audio_out@[p2].channels@[c2]);
        }
    }

    /// An input channel is not behind any output position.
    pub proof fn lemma_in_channel_not_before(&self, p: int, c: int, pi: int, ci: int)
        requires
            self.in_out_disjoint(),
            0 <= pi < self.audio_in@.len(),
            0 <= ci < self.audio_in@[pi].channels@.len(),
        ensures
            !self.out_pos_before(p, c, self.audio_in@[pi].channels@[ci] as int),
    {
        let b = self.audio_in@[pi].channels@[ci] as int;
        if self.out_pos_before(p, c, b) {
            let (p2, c2) = choose|p2: int, c2: int|
                self.out_pos(p2, c2) && (p2 < p || (p2 == p && c2 < c)) && (
                #[trigger] self.audio_out@[p2].channels@[c2]) as int == b;
            assert(self.audio_in@[pi].channels@[ci] != self.audio_out@[p2].channels@[c2]);
        }
    }

    /// True only if every input port is exactly silent over the cycle.
    pub fn audio_inputs_silent(&self, pool: &Vec<SharedBuffer<i32>>, frames: usize) -> (r: bool)
        requires
            forall|p: int|
                0 <= p < self.audio_in@.len() ==> (#[trigger] self.audio_in@[p]).wf(
                    pool@,
                    frames as int,
                ),
        ensures
            r == forall|p: int|
                0 <= p < self.audio_in@.len() ==> (#[trigger] self.audio_in@[p]).silent(
                    pool@,
                    frames as int,
                ),
    {
        let n = self.audio_in.len();
        let mut p: usize = 0;
        while p < n
            invariant
                p <= n,
                n == self.audio_in@.len(),
                forall|p2: int|
                    0 <= p2 < p ==> (#[trigger] self.audio_in@[p2]).silent(pool@, frames as int),
            decreases n - p,
        {
            if !self.audio_in[p].is_silent(pool, frames) {
                return false;
            }
            p = p + 1;
        }
        true
    }

    /// Zeroes the first `frames` samples of every output channel and sets
    /// their constant hints; input buffers and unrelated pool entries are
    /// untouched.
    pub fn clear_all_outputs(&self, pool: &mut Vec<SharedBuffer<i32>>, frames: usize)
        requires
            forall|p: int|
                0 <= p < self.audio_out@.len() ==> (#[trigger] self.audio_out@[p]).wf(
                    old(pool)@,
                    0,
                ),
            self.out_channels_distinct(),
        ensures
            self.outputs_cleared(old(pool)@, final(pool)@, frames as int),
    {
        let n_ports = self.audio_out.len();
        let mut p: usize = 0;
        while p < n_ports
            invariant
                p <= n_ports,
                n_ports == self.audio_out@.len(),
                pool@.len() == old(pool)@.len(),
                forall|b: int|
                    0 <= b < old(pool)@.len() && !self.out_pos_before(p as int, 0, b)
                        ==> pool@[b] == old(pool)@[b],
                forall|p2: int, c2: int|
                    self.out_pos(p2, c2) && p2 < p ==> buffer_cleared(
                        old(pool)@[(#[trigger] self.audio_out@[p2].channels@[c2]) as int],
                        pool@[self.audio_out@[p2].channels@[c2] as int],
                        frames as int,
                    ),
            decreases n_ports - p,
        {
            let port = &self.audio_out[p];
            let n_chans = port.channels.len();
            let mut c: usize = 0;
            while c < n_chans
                invariant
                    c <= n_chans,
                    p < n_ports,
                    n_ports == self.audio_out@.len(),
                    n_chans == self.audio_out@[p as int].channels@.len(),
                    port == self.audio_out@[p as int],
                    pool@.len() == old(pool)@.len(),
                    forall|b: int|
                        0 <= b < old(pool)@.len() && !self.out_pos_before(p as int, c as int, b)
                            ==> pool@[b] == old(pool)@[b],
                    forall|p2: int, c2: int|
                        self.out_pos(p2, c2) && (p2 < p || (p2 == p && c2 < c)) ==> buffer_cleared(
                            old(pool)@[(#[trigger] self.audio_out@[p2].channels@[c2]) as int],
                            pool@[self.audio_out@[p2].channels@[c2] as int],
                            frames as int,
                        ),
                decreases n_chans - c,
            {
                let ch = port.channels[c];
                proof {
                    // Distinctness: no earlier output position uses this buffer,
                    // so it still holds its original value.
                    assert(!self.out_pos_before(p as int, c as int, ch as int)) by {
                        if self.out_pos_before(p as int, c as int, ch as int) {
                            let (p2, c2) = choose|p2: int, c2: int|
                                self.out_pos(p2, c2) && (p2 < p || (p2 == p && c2 < c as int)) && (
                                #[trigger] self.audio_out@[p2].channels@[c2]) as int == ch as int;
                            assert(self.audio_out@[p2].channels@[c2]
                                != self.audio_out@[p as int].channels@[c as int]);
                        }
                    }
                }
                buf_mut(pool, ch).clear(frames);
                proof {
                    assert forall|b: int|
                        0 <= b < old(pool)@.len() && !self.out_pos_before(
                            p as int,
                            c + 1,
                            b,
                        ) implies pool@[b] == old(pool)@[b] by {
                        assert(b != ch as int) by {
                            assert(self.out_pos(p as int, c as int));
                        }
                        assert(!self.out_pos_before(p as int, c as int, b)) by {
                            if self.out_pos_before(p as int, c as int, b) {
                                let (p2, c2) = choose|p2: int, c2: int|
                                    self.out_pos(p2, c2) && (p2 < p || (p2 == p && c2 < c as int))
                                        && (#[trigger] self.audio_out@[p2].channels@[c2]) as int
                                        == b;
                                assert(self.out_pos_before(p as int, c + 1, b));
                            }
                        }
                    }
                    assert forall|p2: int, c2: int|
                        self.out_pos(p2, c2) && (p2 < p || (p2 == p && c2 < c
                            + 1)) implies buffer_cleared(
                        old(pool)@[(#[trigger] self.audio_out@[p2].channels@[c2]) as int],
                        pool@[self.audio_out@[p2].channels@[c2] as int],
                        frames as int,
                    ) by {
                        if p2 == p && c2 == c as int {
                        } else {
                            assert(self.audio_out@[p2].channels@[c2]
                                != self.audio_out@[p as int].channels@[c as int]);
                        }
                    }
                }
                c = c + 1;
            }
            proof {
                assert forall|b: int|
                    0 <= b < old(pool)@.len() && !self.out_pos_before(p + 1, 0, b) implies pool@[b]
                    == old(pool)@[b] by {
                    assert(!self.out_pos_before(p as int, n_chans as int, b)) by {
                        if self.out_pos_before(p as int, n_chans as int, b) {
                            let (p2, c2) = choose|p2: int, c2: int|
                                self.out_pos(p2, c2) && (p2 < p || (p2 == p && c2
                                    < n_chans as int)) && (
                                #[trigger] self.audio_out@[p2].channels@[c2]) as int == b;
                            assert(p2 < p + 1 || (p2 == p + 1 && c2 < 0));
                            assert(self.out_pos_before(p + 1, 0, b));
                        }
                    }
                }
            }
            p = p + 1;
        }
        proof {
            assert forall|b: int|
                0 <= b < old(pool)@.len() && !self.is_out_channel(b) implies pool@[b] == old(
                pool,
            )@[b] by {
                assert(!self.out_pos_before(n_ports as int, 0, b)) by {
                    if self.out_pos_before(n_ports as int, 0, b) {
                        let (p2, c2) = choose|p2: int, c2: int|
                            self.out_pos(p2, c2) && (p2 < n_ports || (p2 == n_ports && c2 < 0)) && (
                            #[trigger] self.audio_out@[p2].channels@[c2]) as int == b;
                        assert(self.is_out_channel(b));
                    }
                }
            }
        }
    }
}

} // verus!
