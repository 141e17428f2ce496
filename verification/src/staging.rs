//! The buffers of one stream.
//!
//! A device moves interleaved blocks. A host that asked for planes is given
//! planar scratch buffers instead; capture is scattered into them before
//! the host runs, and what the host wrote is gathered from them afterwards.
//! All buffers are sized once, when the stream starts, and keep their length
//! for the lifetime of the run.

use vstd::prelude::*;
use crate::abi::oa_stream_config;
use crate::layout::{deinterleave, fill, filled, gather, interleave, overlaid, scatter};

verus! {

/// The smallest channel count that the input buffers are sized for: an
/// unused input direction still owns one channel's worth of samples.
pub open spec fn spec_input_width(in_channels: u16) -> nat {
    if in_channels == 0 {
        1
    } else {
        in_channels as nat
    }
}

/// Number of samples in the input buffers of a stream.
pub open spec fn spec_input_len(cfg: oa_stream_config) -> nat {
    cfg.buffer_frames as nat * spec_input_width(cfg.in_channels)
}

/// Number of samples in the output buffers of a stream.
pub open spec fn spec_output_len(cfg: oa_stream_config) -> nat {
    cfg.buffer_frames as nat * cfg.out_channels as nat
}

/// Number of samples in the input buffers of a stream.
pub fn input_len(cfg: &oa_stream_config) -> (r: u64)
    ensures
        r == spec_input_len(*cfg),
{
    let width: u64 = if cfg.in_channels == 0 {
        1
    } else {
        cfg.in_channels as u64
    };
    assert(cfg.buffer_frames as u64 * width <= 0xFFFF_FFFF * 0xFFFF) by (nonlinear_arith)
        requires
            cfg.buffer_frames as u64 <= 0xFFFF_FFFF,
            width <= 0xFFFF,
    ;
    cfg.buffer_frames as u64 * width
}

/// Number of samples in the output buffers of a stream.
pub fn output_len(cfg: &oa_stream_config) -> (r: u64)
    ensures
        r == spec_output_len(*cfg),
{
    assert(cfg.buffer_frames as u64 * cfg.out_channels as u64 <= 0xFFFF_FFFF * 0xFFFF)
        by (nonlinear_arith)
        requires
            cfg.buffer_frames as u64 <= 0xFFFF_FFFF,
            cfg.out_channels as u64 <= 0xFFFF,
    ;
    cfg.buffer_frames as u64 * cfg.out_channels as u64
}

/// Whether the buffers of a stream can be addressed on this machine.
pub open spec fn spec_fits(cfg: oa_stream_config) -> bool {
    spec_input_len(cfg) <= usize::MAX && spec_output_len(cfg) <= usize::MAX
}

/// Whether the buffers of a stream can be addressed on this machine.
pub fn fits(cfg: &oa_stream_config) -> (r: bool)
    ensures
        r == spec_fits(*cfg),
{
    input_len(cfg) <= usize::MAX as u64 && output_len(cfg) <= usize::MAX as u64
}

/// The outcome of one blocking transfer to or from a device.
#[derive(Clone, Copy, Debug, PartialEq, Eq, Structural)]
pub enum Io {
    /// The device moved this many frames.
    Done(usize),
    /// The device ran dry or overflowed and has to be prepared again.
    Xrun,
    /// The transfer failed for another reason.
    Failed,
}

/// What a host is handed as its input.
#[derive(Clone, Copy, Debug, PartialEq, Eq, Structural)]
pub enum Source {
    /// Nothing: the stream has no input channels.
    Absent,
    /// The interleaved input buffer.
    Interleaved,
    /// One plane per channel, inside the planar input scratch.
    Planes,
}

/// What a host is handed to write its output to.
#[derive(Clone, Copy, Debug, PartialEq, Eq, Structural)]
pub enum Target {
    /// The interleaved output buffer.
    Interleaved,
    /// One plane per channel, inside the planar output scratch.
    Planes,
}

/// The buffers of one stream, for samples of type `T`.
pub struct Staging<T> {
    pub frames: usize,
    pub in_channels: usize,
    pub out_channels: usize,
    pub interleaved: bool,
    /// The sample that stands for silence.
    pub silence: T,
    /// Interleaved capture block.
    pub in_buf: Vec<T>,
    /// Interleaved playback block.
    pub out_buf: Vec<T>,
    /// Planar copy of the capture block, for a host that reads planes.
    pub in_scratch: Vec<T>,
    /// Planar block that a host that writes planes writes to.
    pub out_scratch: Vec<T>,
    /// Where each input plane starts in `in_scratch`.
    pub in_planes: Vec<usize>,
    /// Where each output plane starts in `out_scratch`.
    pub out_planes: Vec<usize>,
}

/// The mathematical content of a `Staging`.
pub ghost struct StagingView<T> {
    pub frames: nat,
    pub in_channels: nat,
    pub out_channels: nat,
    pub interleaved: bool,
    pub silence: T,
    pub in_buf: Seq<T>,
    pub out_buf: Seq<T>,
    pub in_scratch: Seq<T>,
    pub out_scratch: Seq<T>,
    pub in_planes: Seq<usize>,
    pub out_planes: Seq<usize>,
}

impl<T> StagingView<T> {
    /// Number of samples of one captured block.
    pub open spec fn in_block(self) -> nat {
        self.frames * self.in_channels
    }

    /// Number of samples of one played block.
    pub open spec fn out_block(self) -> nat {
        self.frames * self.out_channels
    }

    /// The buffers have the lengths that the stream was started with, and
    /// every plane lies inside its scratch buffer.
    pub open spec fn wf(self) -> bool {
        &&& self.in_buf.len() == self.frames * (if self.in_channels == 0 {
            1nat
        } else {
            self.in_channels
        })
        &&& self.in_scratch.len() == self.in_buf.len()
        &&& self.out_buf.len() == self.frames * self.out_channels
        &&& self.out_scratch.len() == self.out_buf.len()
        &&& self.in_planes.len() == self.in_channels
        &&& self.out_planes.len() == self.out_channels
        &&& forall|c: int|
            0 <= c < self.in_channels ==> #[trigger] self.in_planes[c] == c * self.frames
        &&& forall|c: int|
            0 <= c < self.out_channels ==> #[trigger] self.out_planes[c] == c * self.frames
    }

    /// The buffers are those of a stream of the given configuration.
    pub open spec fn shaped(self, cfg: oa_stream_config) -> bool {
        &&& self.frames == cfg.buffer_frames
        &&& self.in_channels == cfg.in_channels
        &&& self.out_channels == cfg.out_channels
        &&& self.interleaved == cfg.layout.is_interleaved()
    }

    /// How many samples of the input buffer a transfer filled.
    pub open spec fn captured_len(self, io: Io) -> nat {
        match io {
            Io::Done(n) => if n <= self.frames {
                n as nat * self.in_channels
            } else {
                self.frames * self.in_channels
            },
            _ => 0,
        }
    }

    /// The buffers after a capture transfer: what the device did not
    /// deliver is silence, and the planar scratch mirrors the block.
    pub open spec fn capture(self, io: Io) -> StagingView<T> {
        let in_buf = filled(
            self.in_buf,
            self.captured_len(io) as int,
            self.in_block() as int,
            self.silence,
        );
        StagingView {
            in_buf,
            in_scratch: if self.interleaved {
                self.in_scratch
            } else {
                overlaid(
                    self.in_scratch,
                    deinterleave(in_buf, self.frames, self.in_channels),
                    self.in_block() as int,
                )
            },
            ..self
        }
    }

    /// The buffers as the host meets them: the block it is about to write
    /// holds silence.
    pub open spec fn clear(self) -> StagingView<T> {
        if self.interleaved {
            StagingView {
                out_buf: filled(self.out_buf, 0, self.out_block() as int, self.silence),
                ..self
            }
        } else {
            StagingView {
                out_scratch: filled(self.out_scratch, 0, self.out_block() as int, self.silence),
                ..self
            }
        }
    }

    /// The block that goes to the device once the host has returned: what
    /// the host wrote, in frame-major order; or silence, if the host asked
    /// to stop.
    pub open spec fn outgoing(self, keep: bool) -> Seq<T> {
        if !keep {
            filled(self.out_buf, 0, self.out_block() as int, self.silence)
        } else if self.interleaved {
            self.out_buf
        } else {
            overlaid(
                self.out_buf,
                interleave(self.out_scratch, self.frames, self.out_channels),
                self.out_block() as int,
            )
        }
    }

    /// The buffers after the host has returned.
    pub open spec fn deliver(self, keep: bool) -> StagingView<T> {
        StagingView { out_buf: self.outgoing(keep), ..self }
    }

    /// What the host is handed as input.
    pub open spec fn source(self) -> Source {
        if self.in_channels == 0 {
            Source::Absent
        } else if self.interleaved {
            Source::Interleaved
        } else {
            Source::Planes
        }
    }

    /// What the host is handed for its output.
    pub open spec fn target(self) -> Target {
        if self.interleaved {
            Target::Interleaved
        } else {
            Target::Planes
        }
    }
}

impl<T> Staging<T> {
    /// The buffers of a stream that is about to run: every sample silent.
    pub open spec fn spec_new(cfg: oa_stream_config, silence: T) -> StagingView<T> {
        StagingView {
            frames: cfg.buffer_frames as nat,
            in_channels: cfg.in_channels as nat,
            out_channels: cfg.out_channels as nat,
            interleaved: cfg.layout.is_interleaved(),
            silence,
            in_buf: Seq::new(spec_input_len(cfg), |i: int| silence),
            out_buf: Seq::new(spec_output_len(cfg), |i: int| silence),
            in_scratch: Seq::new(spec_input_len(cfg), |i: int| silence),
            out_scratch: Seq::new(spec_output_len(cfg), |i: int| silence),
            in_planes: Seq::new(cfg.in_channels as nat, |c: int| (c * cfg.buffer_frames) as usize),
            out_planes: Seq::new(cfg.out_channels as nat, |c: int| (c * cfg.buffer_frames) as usize),
        }
    }
}

impl<T> View for Staging<T> {
    type V = StagingView<T>;

    open spec fn view(&self) -> StagingView<T> {
        StagingView {
            frames: self.frames as nat,
            in_channels: self.in_channels as nat,
            out_channels: self.out_channels as nat,
            interleaved: self.interleaved,
            silence: self.silence,
            in_buf: self.in_buf@,
            out_buf: self.out_buf@,
            in_scratch: self.in_scratch@,
            out_scratch: self.out_scratch@,
            in_planes: self.in_planes@,
            out_planes: self.out_planes@,
        }
    }
}

/// A buffer of `n` samples that all hold `value`.
pub fn repeat<T: Copy>(value: T, n: usize) -> (r: Vec<T>)
    ensures
        r@ == Seq::new(n as nat, |i: int| value),
{
    let mut r: Vec<T> = Vec::new();
    let mut i: usize = 0;
    while i < n
        invariant
            i <= n,
            r@ == Seq::new(i as nat, |j: int| value),
        decreases n - i,
    {
        r.push(value);
        i += 1;
    }
    r
}

/// Where each of `channels` planes of `frames` samples starts.
pub fn plane_offsets(frames: usize, channels: usize) -> (r: Vec<usize>)
    requires
        frames * channels <= usize::MAX,
    ensures
        r@.len() == channels,
        forall|c: int| 0 <= c < channels ==> #[trigger] r@[c] == c * frames,
{
    let mut r: Vec<usize> = Vec::new();
    let mut c: usize = 0;
    while c < channels
        invariant
            c <= channels,
            frames * channels <= usize::MAX,
            r@.len() == c,
            forall|k: int| 0 <= k < c ==> #[trigger] r@[k] == k * frames,
        decreases channels - c,
    {
        assert(c * frames <= frames * channels) by (nonlinear_arith)
            requires
                c < channels,
        ;
        r.push(c * frames);
        c += 1;
    }
    r
}

impl<T: Copy> Staging<T> {
    /// The buffers of a stream of the given configuration, all silent.
    pub fn new(cfg: &oa_stream_config, silence: T) -> (r: Staging<T>)
        requires
            spec_fits(*cfg),
        ensures
            r@.wf(),
            r@ == Self::spec_new(*cfg, silence),
    {
        let frames = cfg.buffer_frames as usize;
        let ich = cfg.in_channels as usize;
        let och = cfg.out_channels as usize;
        let width: usize = if ich == 0 {
            1
        } else {
            ich
        };
        assert(frames * ich <= frames * width) by (nonlinear_arith)
            requires
                ich <= width,
        ;
        let in_len = frames * width;
        let out_len = frames * och;
        let r = Staging {
            frames,
            in_channels: ich,
            out_channels: och,
            interleaved: cfg.layout.is_interleaved(),
            silence,
            in_buf: repeat(silence, in_len),
            out_buf: repeat(silence, out_len),
            in_scratch: repeat(silence, in_len),
            out_scratch: repeat(silence, out_len),
            in_planes: plane_offsets(frames, ich),
            out_planes: plane_offsets(frames, och),
        };
        proof {
            let want = Self::spec_new(*cfg, silence);
            assert forall|c: int| 0 <= c < ich implies 0 <= #[trigger] (c * frames) <= usize::MAX by {
                assert(0 <= c * frames <= frames * ich) by (nonlinear_arith)
                    requires
                        0 <= c < ich,
                        0 <= frames,
                ;
            }
            assert forall|c: int| 0 <= c < och implies 0 <= #[trigger] (c * frames) <= usize::MAX by {
                assert(0 <= c * frames <= frames * och) by (nonlinear_arith)
                    requires
                        0 <= c < och,
                        0 <= frames,
                ;
            }
            assert(r@.in_planes =~= want.in_planes);
            assert(r@.out_planes =~= want.out_planes);
            assert(r@.in_buf =~= want.in_buf);
            assert(r@.out_buf =~= want.out_buf);
            assert(r@.in_scratch =~= want.in_scratch);
            assert(r@.out_scratch =~= want.out_scratch);
        }
        r
    }

    /// What the host is handed as input.
    pub fn source(&self) -> (r: Source)
        ensures
            r == self@.source(),
    {
        if self.in_channels == 0 {
            Source::Absent
        } else if self.interleaved {
            Source::Interleaved
        } else {
            Source::Planes
        }
    }

    /// What the host is handed for its output.
    pub fn target(&self) -> (r: Target)
        ensures
            r == self@.target(),
    {
        if self.interleaved {
            Target::Interleaved
        } else {
            Target::Planes
        }
    }

    /// Completes a capture transfer that left its frames at the start of
    /// `in_buf`: the rest of the block becomes silence, and a host that
    /// reads planes gets the block scattered into them.
    pub fn capture(&mut self, io: Io)
        requires
            old(self)@.wf(),
        ensures
            final(self)@ == old(self)@.capture(io),
            final(self)@.wf(),
    {
        let frames = self.frames;
        let ich = self.in_channels;
        let in_len = self.in_buf.len();
        proof {
            assert(frames * ich <= in_len) by (nonlinear_arith)
                requires
                    in_len == frames * (if ich == 0 {
                        1nat
                    } else {
                        ich as nat
                    }),
            ;
        }
        let total = frames * ich;
        let got: usize = match io {
            Io::Done(n) => {
                if n <= frames {
                    assert(n * ich <= frames * ich) by (nonlinear_arith)
                        requires
                            n <= frames,
                    ;
                    n * ich
                } else {
                    total
                }
            },
            _ => 0,
        };
        fill(&mut self.in_buf, got, total, self.silence);
        if !self.interleaved {
            scatter(self.in_buf.as_slice(), frames, ich, &mut self.in_scratch);
        }
    }

    /// Silences the block that the host is about to write.
    pub fn clear(&mut self)
        requires
            old(self)@.wf(),
        ensures
            final(self)@ == old(self)@.clear(),
            final(self)@.wf(),
    {
        let total = self.out_buf.len();
        if self.interleaved {
            fill(&mut self.out_buf, 0, total, self.silence);
        } else {
            fill(&mut self.out_scratch, 0, total, self.silence);
        }
    }

    /// Readies the block for the device once the host has returned.
    pub fn deliver(&mut self, keep: bool)
        requires
            old(self)@.wf(),
        ensures
            final(self)@ == old(self)@.deliver(keep),
            final(self)@.wf(),
    {
        let total = self.out_buf.len();
        if !keep {
            fill(&mut self.out_buf, 0, total, self.silence);
        } else if !self.interleaved {
            gather(self.out_scratch.as_slice(), self.frames, self.out_channels, &mut self.out_buf);
        }
    }
}

/// Every plane lies inside its scratch buffer, one after the other.
pub proof fn lemma_planes_inside<T>(s: StagingView<T>, c: int)
    requires
        s.wf(),
    ensures
        0 <= c < s.in_channels ==> s.in_planes[c] + s.frames <= s.in_scratch.len(),
        0 <= c < s.out_channels ==> s.out_planes[c] + s.frames <= s.out_scratch.len(),
{
    if 0 <= c < s.in_channels {
        assert(c * s.frames + s.frames <= s.frames * s.in_channels) by (nonlinear_arith)
            requires
                0 <= c < s.in_channels,
        ;
    }
    if 0 <= c < s.out_channels {
        assert(c * s.frames + s.frames <= s.frames * s.out_channels) by (nonlinear_arith)
            requires
                0 <= c < s.out_channels,
        ;
    }
}

/// What a host writes to the interleaved output buffer is what goes to the
/// device, sample for sample.
pub proof fn lemma_interleaved_delivery<T>(s: StagingView<T>)
    requires
        s.interleaved,
    ensures
        s.deliver(true).out_buf == s.out_buf,
        s.deliver(true) == s,
{
}

/// What a host writes to frame `f` of plane `c` goes to the device at
/// `f * channels + c`.
pub proof fn lemma_planar_delivery<T>(s: StagingView<T>, f: int, c: int)
    requires
        s.wf(),
        !s.interleaved,
        0 <= f < s.frames,
        0 <= c < s.out_channels,
    ensures
        0 <= f * s.out_channels + c < s.deliver(true).out_buf.len(),
        0 <= s.out_planes[c] + f < s.out_scratch.len(),
        s.deliver(true).out_buf[f * s.out_channels + c] == s.out_scratch[s.out_planes[c] + f],
{
    crate::layout::lemma_interleave_at(s.out_scratch, s.frames, s.out_channels, f, c);
    lemma_planes_inside(s, c);
}

/// A host that asks to stop has silence delivered in place of what it
/// wrote.
pub proof fn lemma_stop_delivers_silence<T>(s: StagingView<T>, i: int)
    requires
        s.wf(),
        0 <= i < s.out_buf.len(),
    ensures
        s.deliver(false).out_buf.len() == s.out_buf.len(),
        s.deliver(false).out_buf[i] == s.silence,
{
}

/// A host that reads planes finds the captured sample of frame `f` and
/// channel `c` at frame `f` of plane `c`; and what the device did not
/// deliver is silence there too.
pub proof fn lemma_planar_capture<T>(s: StagingView<T>, io: Io, f: int, c: int)
    requires
        s.wf(),
        !s.interleaved,
        0 <= f < s.frames,
        0 <= c < s.in_channels,
    ensures
        0 <= f * s.in_channels + c < s.in_buf.len(),
        0 <= s.in_planes[c] + f < s.in_scratch.len(),
        s.capture(io).in_scratch[s.in_planes[c] + f] == s.capture(io).in_buf[f * s.in_channels + c],
        s.capture(io).in_buf[f * s.in_channels + c] == (if f * s.in_channels + c < s.captured_len(
            io,
        ) {
            s.in_buf[f * s.in_channels + c]
        } else {
            s.silence
        }),
{
    crate::layout::lemma_deinterleave_at(s.capture(io).in_buf, s.frames, s.in_channels, f, c);
    crate::layout::lemma_cell(f, c, s.frames as int, s.in_channels as int);
    lemma_planes_inside(s, c);
}

/// The buffers keep their lengths and their planes through every step of
/// a period.
pub proof fn lemma_buffers_stay<T>(s: StagingView<T>, io: Io, keep: bool)
    requires
        s.wf(),
    ensures
        s.capture(io).wf(),
        s.clear().wf(),
        s.deliver(keep).wf(),
        s.capture(io).in_planes == s.in_planes && s.capture(io).out_planes == s.out_planes,
        s.clear().in_planes == s.in_planes && s.clear().out_planes == s.out_planes,
        s.deliver(keep).in_planes == s.in_planes && s.deliver(keep).out_planes == s.out_planes,
{
}

} // verus!
