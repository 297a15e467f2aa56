//! Sample and event buffers with a constant/silence hint.
//!
//! A `SharedBuffer` is the leaf primitive of the processing graph: a sequence
//! of samples (or event records) together with a *constant hint*. The hint is
//! conservative: producers set it when they know every valid sample equals
//! sample 0, and consumers may use it to skip work, but a cleared hint never
//! means the data is non-constant. In the running host the buffer is shared
//! by every schedule task that references it; here tasks address buffers by
//! index into a pool owned by the audio context, which is how the engine
//! pre-allocates them at activation time.

use vstd::prelude::*;

verus! {

use vstd::math::min;

/// The kind of data a buffer carries. For diagnostics only.
#[derive(Clone, Copy, PartialEq, Eq, Hash, Debug, Structural)]
pub enum DebugBufferType {
    Audio32,
    Audio64,
    IntermediaryAudio32,
    Event,
    Note,
}

/// Identity of a buffer, for diagnostics only.
#[derive(Clone, Copy, PartialEq, Eq, Hash, Debug, Structural)]
pub struct DebugBufferID {
    pub index: u32,
    pub buffer_type: DebugBufferType,
}

/// A growable buffer of samples or event records with a constant hint.
pub struct SharedBuffer<T> {
    data: Vec<T>,
    constant: bool,
    debug_info: DebugBufferID,
}

impl<T> View for SharedBuffer<T> {
    type V = Seq<T>;

    closed spec fn view(&self) -> Seq<T> {
        self.data@
    }
}

impl<T> SharedBuffer<T> {
    /// True when the producer has marked the contents as uniform.
    pub closed spec fn constant_hint(&self) -> bool {
        self.constant
    }

    pub closed spec fn spec_id(&self) -> DebugBufferID {
        self.debug_info
    }

    /// An empty buffer; the capacity is a pre-allocation request only.
    pub fn with_capacity(capacity: usize, debug_info: DebugBufferID) -> (r: Self)
        ensures
            r@ == Seq::<T>::empty(),
            !r.constant_hint(),
            r.spec_id() == debug_info,
    {
        SharedBuffer { data: Vec::with_capacity(capacity), constant: false, debug_info }
    }

    /// Read access to the underlying sequence.
    pub fn borrow(&self) -> (r: &Vec<T>)
        ensures
            r@ == self@,
    {
        &self.data
    }

    /// Write access to the underlying sequence; the hint is left as it was.
    pub fn borrow_mut(&mut self) -> (r: &mut Vec<T>)
        ensures
            (*r)@ == old(self)@,
            final(self)@ == (*final(r))@,
            final(self).constant_hint() == old(self).constant_hint(),
            final(self).spec_id() == old(self).spec_id(),
    {
        &mut self.data
    }

    pub fn set_constant(&mut self, is_constant: bool)
        ensures
            final(self)@ == old(self)@,
            final(self).constant_hint() == is_constant,
            final(self).spec_id() == old(self).spec_id(),
    {
        self.constant = is_constant;
    }

    pub fn is_constant(&self) -> (r: bool)
        ensures
            r == self.constant_hint(),
    {
        self.constant
    }

    pub fn id(&self) -> (r: DebugBufferID)
        ensures
            r == self.spec_id(),
    {
        self.debug_info
    }

    /// Empties the buffer without touching the hint.
    pub fn truncate(&mut self)
        ensures
            final(self)@ == Seq::<T>::empty(),
            final(self).constant_hint() == old(self).constant_hint(),
            final(self).spec_id() == old(self).spec_id(),
    {
        self.data.clear();
    }

    pub fn len(&self) -> (r: usize)
        ensures
            r == self@.len(),
    {
        self.data.len()
    }

    pub fn get(&self, i: usize) -> (r: &T)
        requires
            i < self@.len(),
        ensures
            *r == self@[i as int],
    {
        &self.data[i]
    }

    pub fn set(&mut self, i: usize, value: T)
        requires
            i < old(self)@.len(),
        ensures
            final(self)@ == old(self)@.update(i as int, value),
            final(self).constant_hint() == old(self).constant_hint(),
            final(self).spec_id() == old(self).spec_id(),
    {
        self.data.set(i, value);
    }

    pub fn push(&mut self, value: T)
        ensures
            final(self)@ == old(self)@.push(value),
            final(self).constant_hint() == old(self).constant_hint(),
            final(self).spec_id() == old(self).spec_id(),
    {
        self.data.push(value);
    }
}

/// Mutable access to one buffer of a pool. Schedule tasks address the
/// buffers they share by index into the pool the engine allocated.
pub fn buf_mut<T>(pool: &mut Vec<SharedBuffer<T>>, b: usize) -> (r: &mut SharedBuffer<T>)
    requires
        b < old(pool)@.len(),
    ensures
        *r == old(pool)@[b as int],
        final(pool)@ == old(pool)@.update(b as int, *final(r)),
{
    &mut pool[b]
}

impl SharedBuffer<i32> {
    /// A zeroed audio buffer sized for the largest cycle.
    pub fn new(max_frames: usize, debug_info: DebugBufferID) -> (r: Self)
        ensures
            r@.len() == max_frames,
            forall|i: int| 0 <= i < max_frames ==> r@[i] == 0i32,
            !r.constant_hint(),
            r.spec_id() == debug_info,
    {
        let mut data: Vec<i32> = Vec::with_capacity(max_frames);
        let mut i: usize = 0;
        while i < max_frames
            invariant
                i <= max_frames,
                data@.len() == i,
                forall|j: int| 0 <= j < i ==> data@[j] == 0i32,
            decreases max_frames - i,
        {
            data.push(0i32);
            i = i + 1;
        }
        SharedBuffer { data, constant: false, debug_info }
    }

    /// Zeroes the first `frames` samples (clamped to the buffer's length)
    /// and sets the constant hint.
    pub fn clear(&mut self, frames: usize)
        ensures
            final(self)@.len() == old(self)@.len(),
            forall|i: int|
                0 <= i < min(frames as int, old(self)@.len() as int) ==> final(self)@[i] == 0i32,
            forall|i: int|
                min(frames as int, old(self)@.len() as int) <= i < old(self)@.len()
                    ==> final(self)@[i] == old(self)@[i],
            final(self).constant_hint(),
            final(self).spec_id() == old(self).spec_id(),
    {
        let n = if frames < self.data.len() {
            frames
        } else {
            self.data.len()
        };
        let mut i: usize = 0;
        while i < n
            invariant
                i <= n,
                n <= self.data@.len(),
                self.data@.len() == old(self)@.len(),
                forall|j: int| 0 <= j < i ==> self.data@[j] == 0i32,
                forall|j: int| i <= j < old(self)@.len() ==> self.data@[j] == old(self)@[j],
                self.constant == old(self).constant_hint(),
                self.debug_info == old(self).spec_id(),
            decreases n - i,
        {
            self.data.set(i, 0i32);
            i = i + 1;
        }
        self.set_constant(true);
    }

    /// Cheap check that the buffer could be silent: it relies on the constant
    /// hint and the first sample only, so it may report false on a buffer
    /// that is in fact silent, never the other way around when the hint is
    /// honest.
    pub fn has_silent_hint(&self) -> (r: bool)
        requires
            self@.len() > 0,
        ensures
            r == (self.constant_hint() && self@[0] == 0i32),
    {
        self.constant && *self.get(0) == 0i32
    }
}

} // verus!
