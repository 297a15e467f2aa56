//! Bypass declick arithmetic.
//!
//! Toggling a plugin's bypass state crossfades between the processed output
//! ("wet") and the raw input ("dry") over a fixed ramp of `n` frames, so the
//! switch makes no click. The mix weight is the fraction `d / n`: `d == n` is
//! fully wet, `d == 0` fully dry. Samples are fixed-point `i32` values; the
//! mix is computed exactly in 64-bit arithmetic after biasing both operands
//! into nonnegative range.

use vstd::prelude::*;

use crate::buffer::{buf_mut, SharedBuffer};

verus! {

use vstd::arithmetic::div_mod::{lemma_div_is_ordered, lemma_div_multiples_vanish};

/// Upper bound on the declick ramp length; keeps the 64-bit mix arithmetic
/// free of overflow (about 20 seconds of audio at common sample rates).
pub const MAX_BYPASS_DECLICK_FRAMES: usize = 1048576;

/// One crossfaded sample: the convex combination `out * (d/n) + inp * (1 -
/// d/n)`, computed on bias-shifted values with a single flooring division.
pub open spec fn mix_sample(out: i32, inp: i32, d: int, n: int) -> i32
    recommends
        1 <= n,
        0 <= d <= n,
{
    ((((out + 0x8000_0000) * d + (inp + 0x8000_0000) * (n - d)) / n) - 0x8000_0000) as i32
}

/// The mix numerator used at sample `i` of a declick chunk that starts from
/// weight numerator `d0`: ramps down by one per sample while entering bypass,
/// up by one while leaving it.
pub open spec fn declick_weight(entering: bool, d0: int, i: int) -> int {
    if entering {
        d0 - (i + 1)
    } else {
        d0 + (i + 1)
    }
}

/// All-zero dry signal, for output channels that have no paired input and
/// therefore ramp toward silence.
pub open spec fn zero_samples(frames: int) -> Seq<i32> {
    Seq::new(frames as nat, |i: int| 0i32)
}

/// Computes `mix_sample` exactly.
pub fn mix_bypass_sample(out: i32, inp: i32, d: usize, n: usize) -> (r: i32)
    requires
        1 <= n <= MAX_BYPASS_DECLICK_FRAMES,
        d <= n,
    ensures
        r == mix_sample(out, inp, d as int, n as int),
{
    let a = ((out as i64) + 0x8000_0000i64) as u64;
    let b = ((inp as i64) + 0x8000_0000i64) as u64;
    let du = d as u64;
    let nu = n as u64;
    proof {
        assert(a <= 0xffff_ffffu64);
        assert(b <= 0xffff_ffffu64);
        assert(a * du <= 0xffff_ffffu64 * nu) by (nonlinear_arith)
            requires
                a <= 0xffff_ffffu64,
                du <= nu,
                0 <= du,
        ;
        assert(b * (nu - du) <= 0xffff_ffffu64 * nu) by (nonlinear_arith)
            requires
                b <= 0xffff_ffffu64,
                0 <= nu - du <= nu,
        ;
        assert(a * du + b * (nu - du) <= 0xffff_ffffu64 * nu) by (nonlinear_arith)
            requires
                a <= 0xffff_ffffu64,
                b <= 0xffff_ffffu64,
                0 <= du <= nu,
        ;
        assert(0xffff_ffffu64 * nu <= 0xffff_ffffu64 * 0x100000) by (nonlinear_arith)
            requires
                nu <= 0x100000,
        ;
    }
    let num = a * du + b * (nu - du);
    let q = num / nu;
    proof {
        lemma_div_is_ordered(num as int, (0xffff_ffffu64 * nu) as int, nu as int);
        lemma_div_multiples_vanish(0xffff_ffff, nu as int);
        assert(q <= 0xffff_ffffu64);
    }
    ((q as i64) - 0x8000_0000i64) as i32
}

/// How `b1` relates to `b0` after one declick chunk of `m` frames against the
/// dry signal `inp`: the chunk is crossfaded sample by sample; when the ramp
/// finished entering bypass inside this cycle the rest of the cycle is pure
/// passthrough of the dry signal; everything past the cycle is untouched, and
/// the constant hint is cleared.
pub open spec fn channel_declicked(
    b0: SharedBuffer<i32>,
    inp: Seq<i32>,
    b1: SharedBuffer<i32>,
    entering: bool,
    d0: int,
    n: int,
    m: int,
    frames: int,
) -> bool {
    &&& b1@.len() == b0@.len()
    &&& forall|i: int|
        0 <= i < m ==> b1@[i] == mix_sample(b0@[i], inp[i], declick_weight(entering, d0, i), n)
    &&& (entering ==> forall|i: int| m <= i < frames ==> b1@[i] == inp[i])
    &&& (!entering ==> forall|i: int| m <= i < frames ==> b1@[i] == b0@[i])
    &&& forall|i: int| frames <= i < b0@.len() ==> b1@[i] == b0@[i]
    &&& !b1.constant_hint()
    &&& b1.spec_id() == b0.spec_id()
}

/// Crossfades one output channel against its paired input channel over the
/// declick chunk.
pub fn declick_channel_pair(
    pool: &mut Vec<SharedBuffer<i32>>,
    out_ch: usize,
    in_ch: usize,
    entering: bool,
    d0: usize,
    n: usize,
    m: usize,
    frames: usize,
)
    requires
        out_ch != in_ch,
        (out_ch as int) < old(pool)@.len(),
        (in_ch as int) < old(pool)@.len(),
        old(pool)@[out_ch as int]@.len() >= frames,
        old(pool)@[in_ch as int]@.len() >= frames,
        1 <= m <= frames,
        1 <= n <= MAX_BYPASS_DECLICK_FRAMES,
        d0 <= n,
        entering ==> m <= d0,
        !entering ==> d0 + m <= n,
    ensures
        final(pool)@.len() == old(pool)@.len(),
        forall|b: int|
            0 <= b < old(pool)@.len() && b != out_ch as int ==> final(pool)@[b] == old(pool)@[b],
        channel_declicked(
            old(pool)@[out_ch as int],
            old(pool)@[in_ch as int]@,
            final(pool)@[out_ch as int],
            entering,
            d0 as int,
            n as int,
            m as int,
            frames as int,
        ),
{
    let mut d = d0;
    let mut i: usize = 0;
    while i < m
        invariant
            i <= m,
            d == if entering {
                d0 - i
            } else {
                d0 + i
            },
            pool@.len() == old(pool)@.len(),
            forall|b: int|
                0 <= b < old(pool)@.len() && b != out_ch as int ==> pool@[b] == old(pool)@[b],
            pool@[out_ch as int]@.len() == old(pool)@[out_ch as int]@.len(),
            pool@[out_ch as int].constant_hint() == old(pool)@[out_ch as int].constant_hint(),
            pool@[out_ch as int].spec_id() == old(pool)@[out_ch as int].spec_id(),
            forall|q: int|
                0 <= q < i ==> pool@[out_ch as int]@[q] == mix_sample(
                    old(pool)@[out_ch as int]@[q],
                    old(pool)@[in_ch as int]@[q],
                    declick_weight(entering, d0 as int, q),
                    n as int,
                ),
            forall|q: int|
                i <= q < old(pool)@[out_ch as int]@.len()
                    ==> pool@[out_ch as int]@[q] == old(pool)@[out_ch as int]@[q],
        decreases m - i,
    {
        d = if entering {
            d - 1
        } else {
            d + 1
        };
        let o = *pool[out_ch].get(i);
        let v = *pool[in_ch].get(i);
        let mixed = mix_bypass_sample(o, v, d, n);
        buf_mut(pool, out_ch).set(i, mixed);
        i = i + 1;
    }
    if entering {
        while i < frames
            invariant
                m <= i <= frames,
                pool@.len() == old(pool)@.len(),
                forall|b: int|
                    0 <= b < old(pool)@.len() && b != out_ch as int ==> pool@[b] == old(pool)@[b],
                pool@[out_ch as int]@.len() == old(pool)@[out_ch as int]@.len(),
                pool@[out_ch as int].constant_hint() == old(pool)@[out_ch as int].constant_hint(),
                pool@[out_ch as int].spec_id() == old(pool)@[out_ch as int].spec_id(),
                forall|q: int|
                    0 <= q < m ==> pool@[out_ch as int]@[q] == mix_sample(
                        old(pool)@[out_ch as int]@[q],
                        old(pool)@[in_ch as int]@[q],
                        declick_weight(entering, d0 as int, q),
                        n as int,
                    ),
                forall|q: int|
                    m <= q < i ==> pool@[out_ch as int]@[q] == old(pool)@[in_ch as int]@[q],
                forall|q: int|
                    i <= q < old(pool)@[out_ch as int]@.len()
                        ==> pool@[out_ch as int]@[q] == old(pool)@[out_ch as int]@[q],
            decreases frames - i,
        {
            let v = *pool[in_ch].get(i);
            buf_mut(pool, out_ch).set(i, v);
            i = i + 1;
        }
    }
    buf_mut(pool, out_ch).set_constant(false);
}

/// Ramps one output channel toward silence over the declick chunk; used for
/// output channels with no paired input.
pub fn declick_channel_silence(
    pool: &mut Vec<SharedBuffer<i32>>,
    out_ch: usize,
    entering: bool,
    d0: usize,
    n: usize,
    m: usize,
    frames: usize,
)
    requires
        (out_ch as int) < old(pool)@.len(),
        old(pool)@[out_ch as int]@.len() >= frames,
        1 <= m <= frames,
        1 <= n <= MAX_BYPASS_DECLICK_FRAMES,
        d0 <= n,
        entering ==> m <= d0,
        !entering ==> d0 + m <= n,
    ensures
        final(pool)@.len() == old(pool)@.len(),
        forall|b: int|
            0 <= b < old(pool)@.len() && b != out_ch as int ==> final(pool)@[b] == old(pool)@[b],
        channel_declicked(
            old(pool)@[out_ch as int],
            zero_samples(frames as int),
            final(pool)@[out_ch as int],
            entering,
            d0 as int,
            n as int,
            m as int,
            frames as int,
        ),
{
    let mut d = d0;
    let mut i: usize = 0;
    while i < m
        invariant
            i <= m,
            d == if entering {
                d0 - i
            } else {
                d0 + i
            },
            pool@.len() == old(pool)@.len(),
            forall|b: int|
                0 <= b < old(pool)@.len() && b != out_ch as int ==> pool@[b] == old(pool)@[b],
            pool@[out_ch as int]@.len() == old(pool)@[out_ch as int]@.len(),
            pool@[out_ch as int].constant_hint() == old(pool)@[out_ch as int].constant_hint(),
            pool@[out_ch as int].spec_id() == old(pool)@[out_ch as int].spec_id(),
            forall|q: int|
                0 <= q < i ==> pool@[out_ch as int]@[q] == mix_sample(
                    old(pool)@[out_ch as int]@[q],
                    0i32,
                    declick_weight(entering, d0 as int, q),
                    n as int,
                ),
            forall|q: int|
                i <= q < old(pool)@[out_ch as int]@.len()
                    ==> pool@[out_ch as int]@[q] == old(pool)@[out_ch as int]@[q],
        decreases m - i,
    {
        d = if entering {
            d - 1
        } else {
            d + 1
        };
        let o = *pool[out_ch].get(i);
        let mixed = mix_bypass_sample(o, 0i32, d, n);
        buf_mut(pool, out_ch).set(i, mixed);
        i = i + 1;
    }
    if entering {
        while i < frames
            invariant
                m <= i <= frames,
                pool@.len() == old(pool)@.len(),
                forall|b: int|
                    0 <= b < old(pool)@.len() && b != out_ch as int ==> pool@[b] == old(pool)@[b],
                pool@[out_ch as int]@.len() == old(pool)@[out_ch as int]@.len(),
                pool@[out_ch as int].constant_hint() == old(pool)@[out_ch as int].constant_hint(),
                pool@[out_ch as int].spec_id() == old(pool)@[out_ch as int].spec_id(),
                forall|q: int|
                    0 <= q < m ==> pool@[out_ch as int]@[q] == mix_sample(
                        old(pool)@[out_ch as int]@[q],
                        0i32,
                        declick_weight(entering, d0 as int, q),
                        n as int,
                    ),
                forall|q: int| m <= q < i ==> pool@[out_ch as int]@[q] == 0i32,
                forall|q: int|
                    i <= q < old(pool)@[out_ch as int]@.len()
                        ==> pool@[out_ch as int]@[q] == old(pool)@[out_ch as int]@[q],
            decreases frames - i,
        {
            buf_mut(pool, out_ch).set(i, 0i32);
            i = i + 1;
        }
    }
    buf_mut(pool, out_ch).set_constant(false);
}

/// Copies one input channel straight to an output channel over the cycle and
/// propagates its constant hint; the fully-bypassed steady state of the main
/// port.
pub fn passthrough_channel(
    pool: &mut Vec<SharedBuffer<i32>>,
    out_ch: usize,
    in_ch: usize,
    frames: usize,
)
    requires
        out_ch != in_ch,
        (out_ch as int) < old(pool)@.len(),
        (in_ch as int) < old(pool)@.len(),
        old(pool)@[out_ch as int]@.len() >= frames,
        old(pool)@[in_ch as int]@.len() >= frames,
    ensures
        final(pool)@.len() == old(pool)@.len(),
        forall|b: int|
            0 <= b < old(pool)@.len() && b != out_ch as int ==> final(pool)@[b] == old(pool)@[b],
        final(pool)@[out_ch as int]@.len() == old(pool)@[out_ch as int]@.len(),
        forall|i: int|
            0 <= i < frames ==> final(pool)@[out_ch as int]@[i] == old(pool)@[in_ch as int]@[i],
        forall|i: int|
            frames <= i < old(pool)@[out_ch as int]@.len()
                ==> final(pool)@[out_ch as int]@[i] == old(pool)@[out_ch as int]@[i],
        final(pool)@[out_ch as int].constant_hint() == old(pool)@[in_ch as int].constant_hint(),
        final(pool)@[out_ch as int].spec_id() == old(pool)@[out_ch as int].spec_id(),
{
    let mut i: usize = 0;
    while i < frames
        invariant
            i <= frames,
            pool@.len() == old(pool)@.len(),
            forall|b: int|
                0 <= b < old(pool)@.len() && b != out_ch as int ==> pool@[b] == old(pool)@[b],
            pool@[out_ch as int]@.len() == old(pool)@[out_ch as int]@.len(),
            pool@[out_ch as int].spec_id() == old(pool)@[out_ch as int].spec_id(),
            forall|q: int|
                0 <= q < i ==> pool@[out_ch as int]@[q] == old(pool)@[in_ch as int]@[q],
            forall|q: int|
                i <= q < old(pool)@[out_ch as int]@.len()
                    ==> pool@[out_ch as int]@[q] == old(pool)@[out_ch as int]@[q],
        decreases frames - i,
    {
        let v = *pool[in_ch].get(i);
        buf_mut(pool, out_ch).set(i, v);
        i = i + 1;
    }
    let hint = pool[in_ch].is_constant();
    buf_mut(pool, out_ch).set_constant(hint);
}

} // verus!
