//! Fan-in sum tasks.
//!
//! A sum task is a stateless schedule node that merges several upstream
//! buffers of one kind into a single downstream buffer. The audio variant
//! adds samples; the note and automation variants concatenate event records
//! in input order. Tasks address their buffers by index into the cycle's
//! buffer pool; the output buffer must be distinct from every input.

use vstd::prelude::*;

use crate::buffer::{buf_mut, SharedBuffer};

verus! {

use vstd::wrapping::i32_specs;

/// Largest magnitude a constant input's first sample may have and still be
/// treated as exact silence by the audio sum.
pub const SILENCE_EPSILON: i32 = 0;

/// The audio sum skips an input entirely when its constant hint is set and
/// its first sample is at or below the silence threshold in magnitude.
pub open spec fn treated_as_silent(b: SharedBuffer<i32>) -> bool {
    b.constant_hint() && -SILENCE_EPSILON <= b@[0] <= SILENCE_EPSILON
}

/// What one input adds to output sample `j`: a constant input contributes its
/// first sample everywhere, any other input contributes sample `j`.
pub open spec fn sum_contribution(b: SharedBuffer<i32>, j: int) -> i32 {
    if b.constant_hint() {
        b@[0]
    } else {
        b@[j]
    }
}

/// Output sample `j` after the first `k` inputs have been merged: the first
/// input is copied, every later input is skipped when treated as silent and
/// added (wrapping) otherwise.
pub open spec fn audio_mix(pool: Seq<SharedBuffer<i32>>, ins: Seq<usize>, j: int, k: int) -> i32
    decreases k,
{
    if k <= 1 {
        pool[ins[0] as int]@[j]
    } else {
        let prev = audio_mix(pool, ins, j, k - 1);
        let b = pool[ins[k - 1] as int];
        if treated_as_silent(b) {
            prev
        } else {
            i32_specs::wrapping_add(prev, sum_contribution(b, j))
        }
    }
}

/// The output's constant hint: set only when the copied first input carries
/// the hint and every other input was skipped as constant-silent; any real
/// per-sample addition marks the output non-constant.
pub open spec fn audio_mix_constant(pool: Seq<SharedBuffer<i32>>, ins: Seq<usize>) -> bool {
    &&& pool[ins[0] as int].constant_hint()
    &&& forall|k: int| 1 <= k < ins.len() ==> treated_as_silent(#[trigger] pool[ins[k] as int])
}

/// Merges several audio buffers into one by elementwise addition.
pub struct AudioSumTask {
    /// Pool indices of the upstream buffers; at least one.
    pub audio_in: Vec<usize>,
    /// Pool index of the downstream buffer.
    pub audio_out: usize,
}

impl AudioSumTask {
    /// The task's buffer indices are in bounds for the pool, the output is
    /// distinct from every input, and every buffer covers the cycle.
    pub open spec fn wf(&self, pool: Seq<SharedBuffer<i32>>, frames: int) -> bool {
        &&& self.audio_in@.len() >= 1
        &&& (self.audio_out as int) < pool.len()
        &&& pool[self.audio_out as int]@.len() >= frames
        &&& forall|k: int|
            0 <= k < self.audio_in@.len() ==> {
                &&& (#[trigger] self.audio_in@[k]) != self.audio_out
                &&& (self.audio_in@[k] as int) < pool.len()
                &&& pool[self.audio_in@[k] as int]@.len() >= frames
            }
    }

    /// Sums the inputs into the output over the cycle's `frames` samples.
    ///
    /// The first input is copied; each later input is skipped when its
    /// constant hint is set and its first sample is at or below the silence
    /// threshold, added as a scalar when constant but non-silent, and added
    /// elementwise otherwise.
    pub fn process(&self, pool: &mut Vec<SharedBuffer<i32>>, frames: usize)
        requires
            frames >= 1,
            self.wf(old(pool)@, frames as int),
        ensures
            final(pool)@.len() == old(pool)@.len(),
            forall|b: int|
                0 <= b < old(pool)@.len() && b != self.audio_out as int
                    ==> final(pool)@[b] == old(pool)@[b],
            final(pool)@[self.audio_out as int]@.len()
                == old(pool)@[self.audio_out as int]@.len(),
            forall|j: int|
                0 <= j < frames
                    ==> final(pool)@[self.audio_out as int]@[j]
                        == audio_mix(old(pool)@, self.audio_in@, j, self.audio_in@.len() as int),
            forall|j: int|
                frames <= j < old(pool)@[self.audio_out as int]@.len()
                    ==> final(pool)@[self.audio_out as int]@[j]
                        == old(pool)@[self.audio_out as int]@[j],
            final(pool)@[self.audio_out as int].constant_hint()
                == audio_mix_constant(old(pool)@, self.audio_in@),
            final(pool)@[self.audio_out as int].spec_id()
                == old(pool)@[self.audio_out as int].spec_id(),
    {
        let out_idx = self.audio_out;
        let in0 = self.audio_in[0];
        let ghost n_in = self.audio_in@.len() as int;

        let mut j: usize = 0;
        while j < frames
            invariant
                j <= frames,
                pool@.len() == old(pool)@.len(),
                forall|b: int|
                    0 <= b < old(pool)@.len() && b != out_idx as int ==> pool@[b] == old(pool)@[b],
                pool@[out_idx as int]@.len() == old(pool)@[out_idx as int]@.len(),
                pool@[out_idx as int].constant_hint()
                    == old(pool)@[out_idx as int].constant_hint(),
                pool@[out_idx as int].spec_id() == old(pool)@[out_idx as int].spec_id(),
                forall|i: int|
                    0 <= i < j ==> pool@[out_idx as int]@[i] == old(pool)@[in0 as int]@[i],
                forall|i: int|
                    frames <= i < old(pool)@[out_idx as int]@.len()
                        ==> pool@[out_idx as int]@[i] == old(pool)@[out_idx as int]@[i],
            decreases frames - j,
        {
            let v = *pool[in0].get(j);
            buf_mut(pool, out_idx).set(j, v);
            j = j + 1;
        }

        let mut is_constant = pool[in0].is_constant();
        let mut k: usize = 1;
        while k < self.audio_in.len()
            invariant
                1 <= k <= n_in,
                pool@.len() == old(pool)@.len(),
                forall|b: int|
                    0 <= b < old(pool)@.len() && b != out_idx as int ==> pool@[b] == old(pool)@[b],
                pool@[out_idx as int]@.len() == old(pool)@[out_idx as int]@.len(),
                pool@[out_idx as int].constant_hint()
                    == old(pool)@[out_idx as int].constant_hint(),
                pool@[out_idx as int].spec_id() == old(pool)@[out_idx as int].spec_id(),
                forall|i: int|
                    0 <= i < frames
                        ==> pool@[out_idx as int]@[i]
                            == audio_mix(old(pool)@, self.audio_in@, i, k as int),
                forall|i: int|
                    frames <= i < old(pool)@[out_idx as int]@.len()
                        ==> pool@[out_idx as int]@[i] == old(pool)@[out_idx as int]@[i],
                is_constant == (old(pool)@[in0 as int].constant_hint() && forall|q: int|
                    1 <= q < k
                        ==> treated_as_silent(
                            #[trigger] old(pool)@[self.audio_in@[q] as int],
                        )),
            decreases n_in - k,
        {
            let idx = self.audio_in[k];
            if pool[idx].is_constant() {
                let v0 = *pool[idx].get(0);
                if -SILENCE_EPSILON <= v0 && v0 <= SILENCE_EPSILON {
                    // Constant-silent input: contributes nothing.
                } else {
                    is_constant = false;
                    let mut i: usize = 0;
                    while i < frames
                        invariant
                            i <= frames,
                            pool@.len() == old(pool)@.len(),
                            forall|b: int|
                                0 <= b < old(pool)@.len() && b != out_idx as int
                                    ==> pool@[b] == old(pool)@[b],
                            pool@[out_idx as int]@.len() == old(pool)@[out_idx as int]@.len(),
                            pool@[out_idx as int].constant_hint()
                                == old(pool)@[out_idx as int].constant_hint(),
                            pool@[out_idx as int].spec_id()
                                == old(pool)@[out_idx as int].spec_id(),
                            forall|q: int|
                                0 <= q < i
                                    ==> pool@[out_idx as int]@[q]
                                        == audio_mix(old(pool)@, self.audio_in@, q, k + 1),
                            forall|q: int|
                                i <= q < frames
                                    ==> pool@[out_idx as int]@[q]
                                        == audio_mix(old(pool)@, self.audio_in@, q, k as int),
                            forall|q: int|
                                frames <= q < old(pool)@[out_idx as int]@.len()
                                    ==> pool@[out_idx as int]@[q]
                                        == old(pool)@[out_idx as int]@[q],
                        decreases frames - i,
                    {
                        let cur = *pool[out_idx].get(i);
                        buf_mut(pool, out_idx).set(i, cur.wrapping_add(v0));
                        i = i + 1;
                    }
                }
            } else {
                is_constant = false;
                let mut i: usize = 0;
                while i < frames
                    invariant
                        i <= frames,
                        pool@.len() == old(pool)@.len(),
                        forall|b: int|
                            0 <= b < old(pool)@.len() && b != out_idx as int
                                ==> pool@[b] == old(pool)@[b],
                        pool@[out_idx as int]@.len() == old(pool)@[out_idx as int]@.len(),
                        pool@[out_idx as int].constant_hint()
                            == old(pool)@[out_idx as int].constant_hint(),
                        pool@[out_idx as int].spec_id()
                            == old(pool)@[out_idx as int].spec_id(),
                        forall|q: int|
                            0 <= q < i
                                ==> pool@[out_idx as int]@[q]
                                    == audio_mix(old(pool)@, self.audio_in@, q, k + 1),
                        forall|q: int|
                            i <= q < frames
                                ==> pool@[out_idx as int]@[q]
                                    == audio_mix(old(pool)@, self.audio_in@, q, k as int),
                        forall|q: int|
                            frames <= q < old(pool)@[out_idx as int]@.len()
                                ==> pool@[out_idx as int]@[q]
                                    == old(pool)@[out_idx as int]@[q],
                    decreases frames - i,
                {
                    let v = *pool[idx].get(i);
                    let cur = *pool[out_idx].get(i);
                    buf_mut(pool, out_idx).set(i, cur.wrapping_add(v));
                    i = i + 1;
                }
            }
            k = k + 1;
        }

        buf_mut(pool, out_idx).set_constant(is_constant);
    }
}

/// The event records of the first `k` inputs, concatenated in input order
/// with each input's internal order preserved.
pub open spec fn concat_events<T>(pool: Seq<SharedBuffer<T>>, ins: Seq<usize>, k: int) -> Seq<T>
    decreases k,
{
    if k <= 0 {
        Seq::<T>::empty()
    } else {
        concat_events(pool, ins, k - 1) + pool[ins[k - 1] as int]@
    }
}

/// Empties the output buffer, then appends every input's records in input
/// order. No deduplication or time-reordering happens here: it is a fan-in
/// merge, and policy belongs to downstream sanitizers.
pub fn event_sum<T: Copy>(pool: &mut Vec<SharedBuffer<T>>, ins: &Vec<usize>, out: usize)
    requires
        (out as int) < old(pool)@.len(),
        forall|k: int|
            0 <= k < ins@.len() ==> (#[trigger] ins@[k]) != out && (ins@[k] as int) < old(
                pool,
            )@.len(),
    ensures
        final(pool)@.len() == old(pool)@.len(),
        forall|b: int|
            0 <= b < old(pool)@.len() && b != out as int ==> final(pool)@[b] == old(pool)@[b],
        final(pool)@[out as int]@ == concat_events(old(pool)@, ins@, ins@.len() as int),
        final(pool)@[out as int].constant_hint() == old(pool)@[out as int].constant_hint(),
        final(pool)@[out as int].spec_id() == old(pool)@[out as int].spec_id(),
{
    let ghost n_in = ins@.len() as int;
    buf_mut(pool, out).truncate();
    let mut k: usize = 0;
    while k < ins.len()
        invariant
            k <= n_in,
            pool@.len() == old(pool)@.len(),
            forall|b: int|
                0 <= b < old(pool)@.len() && b != out as int ==> pool@[b] == old(pool)@[b],
            pool@[out as int]@ == concat_events(old(pool)@, ins@, k as int),
            pool@[out as int].constant_hint() == old(pool)@[out as int].constant_hint(),
            pool@[out as int].spec_id() == old(pool)@[out as int].spec_id(),
        decreases n_in - k,
    {
        let idx = ins[k];
        let in_len = pool[idx].len();
        let mut j: usize = 0;
        while j < in_len
            invariant
                j <= in_len,
                in_len == old(pool)@[idx as int]@.len(),
                idx == ins@[k as int],
                k < n_in,
                pool@.len() == old(pool)@.len(),
                forall|b: int|
                    0 <= b < old(pool)@.len() && b != out as int ==> pool@[b] == old(pool)@[b],
                pool@[out as int]@ == concat_events(old(pool)@, ins@, k as int)
                    + old(pool)@[idx as int]@.subrange(0, j as int),
                pool@[out as int].constant_hint() == old(pool)@[out as int].constant_hint(),
                pool@[out as int].spec_id() == old(pool)@[out as int].spec_id(),
            decreases in_len - j,
        {
            let v = *pool[idx].get(j);
            buf_mut(pool, out).push(v);
            proof {
                assert(pool@[out as int]@ =~= concat_events(old(pool)@, ins@, k as int) + old(
                    pool,
                )@[idx as int]@.subrange(0, j + 1));
            }
            j = j + 1;
        }
        proof {
            assert(old(pool)@[idx as int]@.subrange(0, in_len as int) =~= old(
                pool,
            )@[idx as int]@);
            assert(pool@[out as int]@ =~= concat_events(old(pool)@, ins@, k as int + 1));
        }
        k = k + 1;
    }
}

/// Merges several automation-event buffers into one by concatenation.
pub struct AutomationSumTask {
    /// Pool indices of the upstream buffers.
    pub input: Vec<usize>,
    /// Pool index of the downstream buffer.
    pub output: usize,
}

impl AutomationSumTask {
    pub open spec fn wf(&self, pool: Seq<SharedBuffer<crate::events::AutomationIoEvent>>) -> bool {
        &&& (self.output as int) < pool.len()
        &&& forall|k: int|
            0 <= k < self.input@.len() ==> (#[trigger] self.input@[k]) != self.output && (
            self.input@[k] as int) < pool.len()
    }

    /// Empties the output, then concatenates the inputs in input order with
    /// each input's internal order preserved.
    pub fn process(&self, pool: &mut Vec<SharedBuffer<crate::events::AutomationIoEvent>>)
        requires
            self.wf(old(pool)@),
        ensures
            final(pool)@.len() == old(pool)@.len(),
            forall|b: int|
                0 <= b < old(pool)@.len() && b != self.output as int
                    ==> final(pool)@[b] == old(pool)@[b],
            final(pool)@[self.output as int]@
                == concat_events(old(pool)@, self.input@, self.input@.len() as int),
            final(pool)@[self.output as int].constant_hint()
                == old(pool)@[self.output as int].constant_hint(),
            final(pool)@[self.output as int].spec_id()
                == old(pool)@[self.output as int].spec_id(),
    {
        event_sum(pool, &self.input, self.output);
    }
}

/// Merges several note-event buffers into one by concatenation.
pub struct NoteSumTask {
    /// Pool indices of the upstream buffers.
    pub note_in: Vec<usize>,
    /// Pool index of the downstream buffer.
    pub note_out: usize,
}

impl NoteSumTask {
    pub open spec fn wf(&self, pool: Seq<SharedBuffer<crate::events::NoteIoEvent>>) -> bool {
        &&& (self.note_out as int) < pool.len()
        &&& forall|k: int|
            0 <= k < self.note_in@.len() ==> (#[trigger] self.note_in@[k]) != self.note_out && (
            self.note_in@[k] as int) < pool.len()
    }

    /// Empties the output, then concatenates the inputs in input order with
    /// each input's internal order preserved.
    pub fn process(&self, pool: &mut Vec<SharedBuffer<crate::events::NoteIoEvent>>)
        requires
            self.wf(old(pool)@),
        ensures
            final(pool)@.len() == old(pool)@.len(),
            forall|b: int|
                0 <= b < old(pool)@.len() && b != self.note_out as int
                    ==> final(pool)@[b] == old(pool)@[b],
            final(pool)@[self.note_out as int]@
                == concat_events(old(pool)@, self.note_in@, self.note_in@.len() as int),
            final(pool)@[self.note_out as int].constant_hint()
                == old(pool)@[self.note_out as int].constant_hint(),
            final(pool)@[self.note_out as int].spec_id()
                == old(pool)@[self.note_out as int].spec_id(),
    {
        event_sum(pool, &self.note_in, self.note_out);
    }
}

/// With every input constant-silent — constant hint set and the first
/// `frames` samples exactly zero — the audio sum yields zero at every frame
/// and sets the output's constant hint.
pub proof fn lemma_audio_sum_all_silent(
    pool: Seq<SharedBuffer<i32>>,
    ins: Seq<usize>,
    frames: int,
)
    requires
        frames >= 1,
        ins.len() >= 1,
        forall|k: int| 0 <= k < ins.len() ==> (#[trigger] ins[k] as int) < pool.len(),
        forall|k: int| 0 <= k < ins.len() ==> pool[#[trigger] ins[k] as int]@.len() >= frames,
        forall|k: int| 0 <= k < ins.len() ==> pool[#[trigger] ins[k] as int].constant_hint(),
        forall|k: int, j: int|
            0 <= k < ins.len() && 0 <= j < frames ==> #[trigger] pool[ins[k] as int]@[j] == 0i32,
    ensures
        forall|j: int| 0 <= j < frames ==> audio_mix(pool, ins, j, ins.len() as int) == 0i32,
        audio_mix_constant(pool, ins),
{
    assert forall|j: int| 0 <= j < frames implies audio_mix(pool, ins, j, ins.len() as int)
        == 0i32 by {
        lemma_audio_mix_silent_prefix(pool, ins, frames, j, ins.len() as int);
    }
    assert forall|k: int| 1 <= k < ins.len() implies treated_as_silent(
        #[trigger] pool[ins[k] as int],
    ) by {
        assert(pool[ins[k] as int]@[0] == 0i32);
    }
}

proof fn lemma_audio_mix_silent_prefix(
    pool: Seq<SharedBuffer<i32>>,
    ins: Seq<usize>,
    frames: int,
    j: int,
    k: int,
)
    requires
        frames >= 1,
        ins.len() >= 1,
        0 <= j < frames,
        1 <= k <= ins.len(),
        forall|q: int| 0 <= q < ins.len() ==> (#[trigger] ins[q] as int) < pool.len(),
        forall|q: int| 0 <= q < ins.len() ==> pool[#[trigger] ins[q] as int]@.len() >= frames,
        forall|q: int| 0 <= q < ins.len() ==> pool[#[trigger] ins[q] as int].constant_hint(),
        forall|q: int, i: int|
            0 <= q < ins.len() && 0 <= i < frames ==> #[trigger] pool[ins[q] as int]@[i] == 0i32,
    ensures
        audio_mix(pool, ins, j, k) == 0i32,
    decreases k,
{
    if k > 1 {
        lemma_audio_mix_silent_prefix(pool, ins, frames, j, k - 1);
        assert(pool[ins[k - 1] as int]@[0] == 0i32);
    } else {
        assert(pool[ins[0] as int]@[j] == 0i32);
    }
}

} // verus!
