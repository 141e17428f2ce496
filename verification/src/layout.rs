//! Sample order within one block of audio.
//!
//! A block of `frames` frames of `channels` channels holds
//! `frames * channels` samples. In frame-major (interleaved) order the sample
//! of frame `f` and channel `c` sits at `f * channels + c`; in channel-major
//! (planar) order it sits at `c * frames + f`. The functions here are generic
//! in the sample type: they move samples and never look inside one.

use vstd::prelude::*;
use vstd::arithmetic::div_mod::lemma_fundamental_div_mod_converse;

verus! {

/// The frame-major rendering of the channel-major block at the start of
/// `planar`.
pub open spec fn interleave<T>(planar: Seq<T>, frames: nat, channels: nat) -> Seq<T> {
    Seq::new(frames * channels, |i: int| planar[(i % channels as int) * frames + i / channels as int])
}

/// The channel-major rendering of the frame-major block at the start of
/// `inter`.
pub open spec fn deinterleave<T>(inter: Seq<T>, frames: nat, channels: nat) -> Seq<T> {
    Seq::new(frames * channels, |i: int| inter[(i % frames as int) * channels + i / frames as int])
}

/// `s` with the positions from `from` up to `to` holding `value`.
pub open spec fn filled<T>(s: Seq<T>, from: int, to: int, value: T) -> Seq<T> {
    Seq::new(s.len(), |i: int| if from <= i < to { value } else { s[i] })
}

/// `dst` with its first `n` positions taken from `src`.
pub open spec fn overlaid<T>(dst: Seq<T>, src: Seq<T>, n: int) -> Seq<T> {
    Seq::new(dst.len(), |i: int| if 0 <= i < n { src[i] } else { dst[i] })
}

/// A cell of a block lies inside the block, and its position determines its
/// frame and channel.
pub proof fn lemma_cell(major: int, minor: int, majors: int, minors: int)
    requires
        0 <= major < majors,
        0 <= minor < minors,
    ensures
        0 <= major * minors <= major * minors + minor < majors * minors,
        (major * minors + minor) / minors == major,
        (major * minors + minor) % minors == minor,
{
    assert(major * minors + minor < majors * minors) by (nonlinear_arith)
        requires
            0 <= major < majors,
            0 <= minor < minors,
    ;
    assert(0 <= major * minors) by (nonlinear_arith)
        requires
            0 <= major,
            0 < minors,
    ;
    lemma_fundamental_div_mod_converse(major * minors + minor, minors, major, minor);
}

/// Every position of a block is the cell of exactly one pair.
pub proof fn lemma_position(i: int, majors: int, minors: int)
    requires
        0 <= i < majors * minors,
        0 <= majors,
        0 <= minors,
    ensures
        0 < minors,
        0 <= i / minors < majors,
        0 <= i % minors < minors,
        i == (i / minors) * minors + i % minors,
{
    assert(0 < minors) by (nonlinear_arith)
        requires
            0 <= i < majors * minors,
            0 <= minors,
    ;
    vstd::arithmetic::div_mod::lemma_fundamental_div_mod(i, minors);
    vstd::arithmetic::div_mod::lemma_mod_pos_bound(i, minors);
    let q = i / minors;
    assert(i == minors * q + i % minors);
    assert(minors * q == q * minors) by (nonlinear_arith);
    assert(q < majors) by (nonlinear_arith)
        requires
            q * minors <= i,
            i < majors * minors,
            0 < minors,
    ;
    assert(0 <= q) by (nonlinear_arith)
        requires
            q * minors + i % minors == i,
            0 <= i,
            i % minors < minors,
            0 < minors,
    ;
}

/// Where a sample of a planar block lands when the block is interleaved:
/// the sample of channel `c` and frame `f` lands at `f * channels + c`.
pub proof fn lemma_interleave_at<T>(planar: Seq<T>, frames: nat, channels: nat, f: int, c: int)
    requires
        0 <= f < frames,
        0 <= c < channels,
    ensures
        0 <= f * channels + c < interleave(planar, frames, channels).len(),
        interleave(planar, frames, channels)[f * channels + c] == planar[c * frames + f],
{
    lemma_cell(f, c, frames as int, channels as int);
}

/// Where a sample of an interleaved block lands when the block is split
/// into planes: the sample of frame `f` and channel `c` lands at
/// `c * frames + f`.
pub proof fn lemma_deinterleave_at<T>(inter: Seq<T>, frames: nat, channels: nat, f: int, c: int)
    requires
        0 <= f < frames,
        0 <= c < channels,
    ensures
        0 <= c * frames + f < deinterleave(inter, frames, channels).len(),
        deinterleave(inter, frames, channels)[c * frames + f] == inter[f * channels + c],
{
    lemma_cell(c, f, channels as int, frames as int);
    assert(channels * frames == frames * channels) by (nonlinear_arith);
}

/// Splitting a block into planes and interleaving the planes again gives
/// the block back.
pub proof fn lemma_interleave_deinterleave<T>(inter: Seq<T>, frames: nat, channels: nat)
    requires
        inter.len() == frames * channels,
    ensures
        interleave(deinterleave(inter, frames, channels), frames, channels) == inter,
{
    let planar = deinterleave(inter, frames, channels);
    let back = interleave(planar, frames, channels);
    assert forall|i: int| 0 <= i < inter.len() implies back[i] == inter[i] by {
        lemma_position(i, frames as int, channels as int);
        let f = i / channels as int;
        let c = i % channels as int;
        lemma_deinterleave_at(inter, frames, channels, f, c);
    }
    assert(back =~= inter);
}

/// Interleaving a planar block and splitting the result into planes again
/// gives the block back.
pub proof fn lemma_deinterleave_interleave<T>(planar: Seq<T>, frames: nat, channels: nat)
    requires
        planar.len() == frames * channels,
    ensures
        deinterleave(interleave(planar, frames, channels), frames, channels) == planar,
{
    let inter = interleave(planar, frames, channels);
    let back = deinterleave(inter, frames, channels);
    assert(channels * frames == frames * channels) by (nonlinear_arith);
    assert forall|i: int| 0 <= i < planar.len() implies back[i] == planar[i] by {
        lemma_position(i, channels as int, frames as int);
        let c = i / frames as int;
        let f = i % frames as int;
        lemma_interleave_at(planar, frames, channels, f, c);
    }
    assert(back =~= planar);
}

/// Writes `value` to the positions from `from` up to `to` of `buf`.
pub fn fill<T: Copy>(buf: &mut Vec<T>, from: usize, to: usize, value: T)
    requires
        from <= to <= old(buf)@.len(),
    ensures
        final(buf)@ == filled(old(buf)@, from as int, to as int, value),
{
    let mut i: usize = from;
    while i < to
        invariant
            from <= i <= to <= buf@.len(),
            buf@.len() == old(buf)@.len(),
            buf@ == filled(old(buf)@, from as int, i as int, value),
        decreases to - i,
    {
        buf.set(i, value);
        i += 1;
    }
}

/// Copies the first `n` samples of `src` over the first `n` of `dst`.
pub fn overlay<T: Copy>(dst: &mut Vec<T>, src: &[T], n: usize)
    requires
        n <= old(dst)@.len(),
        n <= src@.len(),
    ensures
        final(dst)@ == overlaid(old(dst)@, src@, n as int),
{
    let mut i: usize = 0;
    while i < n
        invariant
            i <= n <= dst@.len(),
            n <= src@.len(),
            dst@.len() == old(dst)@.len(),
            dst@ == overlaid(old(dst)@, src@, i as int),
        decreases n - i,
    {
        dst.set(i, src[i]);
        i += 1;
    }
}

/// Gathers the planes at the start of `planar` into frame-major order at
/// the start of `out`. What `out` holds behind the block stays.
pub fn gather<T: Copy>(planar: &[T], frames: usize, channels: usize, out: &mut Vec<T>)
    requires
        frames * channels <= planar@.len(),
        frames * channels <= old(out)@.len(),
    ensures
        final(out)@ == overlaid(
            old(out)@,
            interleave(planar@, frames as nat, channels as nat),
            frames * channels,
        ),
{
    let ghost want = interleave(planar@, frames as nat, channels as nat);
    assert(planar@.len() == planar.len());
    let mut f: usize = 0;
    while f < frames
        invariant
            f <= frames,
            frames * channels <= planar@.len() <= usize::MAX,
            frames * channels <= out@.len(),
            out@.len() == old(out)@.len(),
            want == interleave(planar@, frames as nat, channels as nat),
            out@ == overlaid(old(out)@, want, f * channels),
        decreases frames - f,
    {
        let mut c: usize = 0;
        while c < channels
            invariant
                f < frames,
                c <= channels,
                frames * channels <= planar@.len() <= usize::MAX,
                frames * channels <= out@.len(),
                out@.len() == old(out)@.len(),
                want == interleave(planar@, frames as nat, channels as nat),
                out@ == overlaid(old(out)@, want, f * channels + c),
            decreases channels - c,
        {
            proof {
                lemma_cell(f as int, c as int, frames as int, channels as int);
                lemma_cell(c as int, f as int, channels as int, frames as int);
                assert(channels * frames == frames * channels) by (nonlinear_arith);
            }
            let sample = planar[c * frames + f];
            out.set(f * channels + c, sample);
            c += 1;
        }
        proof {
            assert((f + 1) * channels == f * channels + channels) by (nonlinear_arith);
        }
        f += 1;
    }
    proof {
        assert(out@ =~= overlaid(old(out)@, want, frames * channels));
    }
}

/// Scatters the frame-major block at the start of `inter` into planes at
/// the start of `out`. What `out` holds behind the block stays.
pub fn scatter<T: Copy>(inter: &[T], frames: usize, channels: usize, out: &mut Vec<T>)
    requires
        frames * channels <= inter@.len(),
        frames * channels <= old(out)@.len(),
    ensures
        final(out)@ == overlaid(
            old(out)@,
            deinterleave(inter@, frames as nat, channels as nat),
            frames * channels,
        ),
{
    let ghost want = deinterleave(inter@, frames as nat, channels as nat);
    assert(inter@.len() == inter.len());
    proof {
        assert(channels * frames == frames * channels) by (nonlinear_arith);
    }
    let mut c: usize = 0;
    while c < channels
        invariant
            c <= channels,
            channels * frames == frames * channels,
            frames * channels <= inter@.len() <= usize::MAX,
            frames * channels <= out@.len(),
            out@.len() == old(out)@.len(),
            want == deinterleave(inter@, frames as nat, channels as nat),
            out@ == overlaid(old(out)@, want, c * frames),
        decreases channels - c,
    {
        let mut f: usize = 0;
        while f < frames
            invariant
                c < channels,
                f <= frames,
                channels * frames == frames * channels,
                frames * channels <= inter@.len() <= usize::MAX,
                frames * channels <= out@.len(),
                out@.len() == old(out)@.len(),
                want == deinterleave(inter@, frames as nat, channels as nat),
                out@ == overlaid(old(out)@, want, c * frames + f),
            decreases frames - f,
        {
            proof {
                lemma_cell(f as int, c as int, frames as int, channels as int);
                lemma_cell(c as int, f as int, channels as int, frames as int);
            }
            let sample = inter[f * channels + c];
            out.set(c * frames + f, sample);
            f += 1;
        }
        proof {
            assert((c + 1) * frames == c * frames + frames) by (nonlinear_arith);
        }
        c += 1;
    }
    proof {
        assert(out@ =~= overlaid(old(out)@, want, frames * channels));
    }
}

} // verus!
