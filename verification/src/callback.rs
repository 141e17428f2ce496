//! The driver on top of a sound framework that calls back.
//!
//! Here the framework owns the real-time thread. It calls an input callback
//! with each captured block and an output callback for each block to play;
//! the two are not synchronised. The input callback stores the latest
//! block; the output callback drives the period: it hands the host the
//! stored input and either the framework's own block to write to or, for a
//! host that writes planes, a scratch that is gathered into the
//! framework's block afterwards. The size of a block is the framework's
//! choice, not the stream's.

use vstd::prelude::*;
use crate::abi::{
    oa_buffer_layout, oa_sample_format, oa_stream_config, oa_time_info, spec_has_cap,
    OA_CAP_FULL_DUPLEX, OA_CAP_INPUT, OA_CAP_OUTPUT, OA_CAP_SET_BUFFRAMES, OA_CAP_SET_SAMPLERATE,
    OA_ERR_DEVICE, OA_ERR_INVALID_ARG, OA_ERR_UNSUPPORTED, OA_OK,
};
use crate::transport::{host_time, next_host_time};
use crate::layout::{deinterleave, gather, interleave, overlaid, overlay, scatter};
use crate::listing::{deliver_list, delivered, terminate_names, terminated, texts};
use crate::lifecycle::{Lifecycle, Reply};
use crate::staging::{fits, plane_offsets, repeat, spec_fits, spec_input_len, Source, Target};
use crate::text::{chars_of, contains, same, spec_contains};

verus! {

/// The device that a search settled on.
#[derive(Clone, Copy, Debug, PartialEq, Eq, Structural)]
pub enum Pick {
    /// The device at this place in the list that was searched.
    Listed(usize),
    /// The framework's default device.
    Default,
    /// No device.
    Nothing,
}

/// Whether the device at place `i` has a name that holds `needle`.
pub open spec fn holds_at(names: Seq<Option<String>>, needle: Seq<char>, i: int) -> bool {
    0 <= i < names.len() && (names[i] matches Some(n) && spec_contains(n@, needle))
}

/// Whether the device at place `i` has exactly the name `name`.
pub open spec fn named_at(names: Seq<Option<String>>, name: Seq<char>, i: int) -> bool {
    0 <= i < names.len() && (names[i] matches Some(n) && n@ == name)
}

/// The default device if there is one.
pub open spec fn default_pick(has_default: bool) -> Pick {
    if has_default {
        Pick::Default
    } else {
        Pick::Nothing
    }
}

/// Whether `pick` is the output device for a request: without a name, the
/// default device; with one, the first listed device whose name holds it.
pub open spec fn is_output_pick(
    needle: Option<Seq<char>>,
    names: Seq<Option<String>>,
    has_default: bool,
    pick: Pick,
) -> bool {
    match needle {
        None => pick == default_pick(has_default),
        Some(needle) => match pick {
            Pick::Listed(i) => holds_at(names, needle, i as int) && forall|j: int|
                0 <= j < i ==> !holds_at(names, needle, j),
            Pick::Default => false,
            Pick::Nothing => forall|j: int| !holds_at(names, needle, j),
        },
    }
}

/// Whether `pick` is the input device that goes with an output device: the
/// first listed input of the same name, else the default input.
pub open spec fn is_input_pick(
    output_name: Option<Seq<char>>,
    names: Seq<Option<String>>,
    has_default: bool,
    pick: Pick,
) -> bool {
    match pick {
        Pick::Listed(i) => output_name matches Some(name) && named_at(names, name, i as int)
            && forall|j: int| 0 <= j < i ==> !named_at(names, name, j),
        _ => pick == default_pick(has_default) && (output_name matches Some(name) ==> forall|
            j: int,
        |
            !named_at(names, name, j)),
    }
}

/// Finds the output device for a request.
pub fn pick_output(needle: Option<&str>, names: &Vec<Option<String>>, has_default: bool) -> (r:
    Pick)
    ensures
        is_output_pick(
            match needle {
                Some(n) => Some(n@),
                None => None,
            },
            names@,
            has_default,
            r,
        ),
{
    let text = match needle {
        Some(n) => n,
        None => {
            return if has_default {
                Pick::Default
            } else {
                Pick::Nothing
            };
        },
    };
    let wanted = chars_of(text);
    let mut i: usize = 0;
    while i < names.len()
        invariant
            i <= names@.len(),
            wanted@ == text@,
            needle == Some(text),
            forall|j: int| 0 <= j < i ==> !holds_at(names@, text@, j),
        decreases names@.len() - i,
    {
        match &names[i] {
            Some(n) => {
                let hay = chars_of(n.as_str());
                if contains(&hay, &wanted) {
                    return Pick::Listed(i);
                }
            },
            None => {},
        }
        i += 1;
    }
    Pick::Nothing
}

/// Finds the input device that goes with an output device.
pub fn pick_input(output_name: Option<&str>, names: &Vec<Option<String>>, has_default: bool) -> (r:
    Pick)
    ensures
        is_input_pick(
            match output_name {
                Some(n) => Some(n@),
                None => None,
            },
            names@,
            has_default,
            r,
        ),
{
    match output_name {
        Some(name) => {
            let wanted = chars_of(name);
            let mut i: usize = 0;
            while i < names.len()
                invariant
                    i <= names@.len(),
                    wanted@ == name@,
                    output_name == Some(name),
                    forall|j: int| 0 <= j < i ==> !named_at(names@, name@, j),
                decreases names@.len() - i,
            {
                match &names[i] {
                    Some(n) => {
                        let here = chars_of(n.as_str());
                        if same(&here, &wanted) {
                            return Pick::Listed(i);
                        }
                    },
                    None => {},
                }
                i += 1;
            }
        },
        None => {},
    }
    if has_default {
        Pick::Default
    } else {
        Pick::Nothing
    }
}

/// One stream that the framework is asked to build.
#[derive(Clone, Copy, Debug, PartialEq, Eq, Structural)]
pub struct StreamShape {
    pub channels: u16,
    pub sample_rate: u32,
}

/// What the caller builds to start a stream. The block size is left to
/// the framework.
#[derive(Clone, Copy, Debug, PartialEq, Eq, Structural)]
pub struct StreamPlan {
    /// Whether streams are running that the new ones replace.
    pub halt: bool,
    /// The input stream, if the stream has input and an input device.
    pub input: Option<StreamShape>,
    /// The output stream, whose callback drives the host.
    pub output: StreamShape,
}

/// The mathematical content of a `CallbackDriver`.
pub ghost struct CallbackView {
    pub state: Lifecycle,
    /// Whether an input device goes with the selected output device.
    pub has_input: bool,
    pub cfg: oa_stream_config,
}

/// The configuration that a callback driver holds before its first start.
pub open spec fn initial_config() -> oa_stream_config {
    oa_stream_config {
        sample_rate: 48000,
        buffer_frames: 256,
        in_channels: 0,
        out_channels: 2,
        format: oa_sample_format::OA_SAMPLE_F32,
        layout: oa_buffer_layout::OA_BUF_INTERLEAVED,
    }
}

impl CallbackView {
    /// A driver that has just been created.
    pub open spec fn fresh() -> CallbackView {
        CallbackView { state: Lifecycle::Unopened, has_input: false, cfg: initial_config() }
    }

    /// Whether there are streams to drop.
    pub open spec fn halts(self) -> bool {
        self.state == Lifecycle::Running
    }

    /// The driver after `open_device`.
    pub open spec fn opened(self, output: Pick, input: Pick) -> CallbackView {
        if output == Pick::Nothing {
            self
        } else {
            CallbackView {
                state: if self.state == Lifecycle::Unopened {
                    Lifecycle::Opened
                } else {
                    self.state
                },
                has_input: input != Pick::Nothing,
                ..self
            }
        }
    }

    /// The driver after `stop`.
    pub open spec fn stopped(self) -> CallbackView {
        CallbackView {
            state: if self.state == Lifecycle::Running {
                Lifecycle::Opened
            } else {
                self.state
            },
            ..self
        }
    }

    /// The driver after `close_device`.
    pub open spec fn closed(self) -> CallbackView {
        CallbackView { state: Lifecycle::Unopened, has_input: false, ..self }
    }

    /// Why a start is refused, if it is: without a device selected, an
    /// error of the device; without a configuration, with a sample rate or
    /// a period of zero, or with buffers that this machine cannot address,
    /// an invalid argument.
    pub open spec fn refusal(self, cfg: Option<oa_stream_config>) -> Option<i32> {
        if self.state == Lifecycle::Unopened {
            Some(OA_ERR_DEVICE)
        } else {
            match cfg {
                None => Some(OA_ERR_INVALID_ARG),
                Some(c) => if c.is_positive() && spec_fits(c) {
                    None
                } else {
                    Some(OA_ERR_INVALID_ARG)
                },
            }
        }
    }

    /// The streams of a start.
    pub open spec fn plan(self, cfg: oa_stream_config) -> StreamPlan {
        StreamPlan {
            halt: self.halts(),
            input: if self.has_input && cfg.in_channels > 0 {
                Some(StreamShape { channels: cfg.in_channels, sample_rate: cfg.sample_rate })
            } else {
                None
            },
            output: StreamShape { channels: cfg.out_channels, sample_rate: cfg.sample_rate },
        }
    }

    /// The configuration that the driver proposes, from what the selected
    /// devices say of themselves: the rate and the channels of the output
    /// device, the channels of the input device if there is one that says.
    pub open spec fn proposal(
        self,
        output: Option<StreamShape>,
        input_channels: Option<u16>,
    ) -> Result<oa_stream_config, i32> {
        if self.state == Lifecycle::Unopened {
            Err(OA_ERR_DEVICE)
        } else {
            match output {
                None => Err(OA_ERR_DEVICE),
                Some(shape) => Ok(
                    oa_stream_config {
                        sample_rate: shape.sample_rate,
                        buffer_frames: 256,
                        in_channels: if self.has_input && input_channels is Some {
                            input_channels.unwrap()
                        } else {
                            0
                        },
                        out_channels: shape.channels,
                        format: oa_sample_format::OA_SAMPLE_F32,
                        layout: oa_buffer_layout::OA_BUF_INTERLEAVED,
                    },
                ),
            }
        }
    }
}

/// The books of a callback driver.
pub struct CallbackDriver {
    state: Lifecycle,
    has_input: bool,
    cfg: oa_stream_config,
}

impl View for CallbackDriver {
    type V = CallbackView;

    closed spec fn view(&self) -> CallbackView {
        CallbackView { state: self.state, has_input: self.has_input, cfg: self.cfg }
    }
}

impl CallbackDriver {
    /// A driver as it is created: no device selected, no stream.
    pub fn new() -> (r: CallbackDriver)
        ensures
            r@ == CallbackView::fresh(),
    {
        CallbackDriver {
            state: Lifecycle::Unopened,
            has_input: false,
            cfg: oa_stream_config {
                sample_rate: 48000,
                buffer_frames: 256,
                in_channels: 0,
                out_channels: 2,
                format: oa_sample_format::OA_SAMPLE_F32,
                layout: oa_buffer_layout::OA_BUF_INTERLEAVED,
            },
        }
    }

    pub fn state(&self) -> (r: Lifecycle)
        ensures
            r == self@.state,
    {
        self.state
    }

    /// The configuration in force: that of the last start.
    pub fn config(&self) -> (r: oa_stream_config)
        ensures
            r == self@.cfg,
    {
        self.cfg
    }

    /// The capability bits that the driver declares.
    pub fn get_caps(&self) -> (r: u32)
        ensures
            r == OA_CAP_OUTPUT + OA_CAP_INPUT + OA_CAP_FULL_DUPLEX,
    {
        OA_CAP_OUTPUT + OA_CAP_INPUT + OA_CAP_FULL_DUPLEX
    }

    /// The listing of the output devices that have a name, as it is
    /// written to a buffer of `len` bytes.
    pub fn query_devices(&self, names: &Vec<String>, len: usize) -> (r: Vec<u8>)
        ensures
            r@ == delivered(terminated(texts(names@)), len as nat),
    {
        let list = terminate_names(names);
        deliver_list(list.as_slice(), len)
    }

    /// Takes note of the devices that a search settled on. Without an
    /// output device the call fails and changes nothing.
    pub fn open_device(&mut self, output: Pick, input: Pick) -> (code: i32)
        ensures
            code == (if output == Pick::Nothing {
                OA_ERR_DEVICE
            } else {
                OA_OK
            }),
            final(self)@ == old(self)@.opened(output, input),
    {
        match output {
            Pick::Nothing => OA_ERR_DEVICE,
            _ => {
                match self.state {
                    Lifecycle::Unopened => {
                        self.state = Lifecycle::Opened;
                    },
                    _ => {},
                }
                self.has_input = match input {
                    Pick::Nothing => false,
                    _ => true,
                };
                OA_OK
            },
        }
    }

    /// Drops the streams, if any run, and the selected devices.
    pub fn close_device(&mut self) -> (r: Reply)
        ensures
            r == (Reply { code: OA_OK, halt: old(self)@.halts() }),
            final(self)@ == old(self)@.closed(),
    {
        let halt = match self.state {
            Lifecycle::Running => true,
            _ => false,
        };
        self.state = Lifecycle::Unopened;
        self.has_input = false;
        Reply { code: OA_OK, halt }
    }

    /// Drops the streams, if any run.
    pub fn stop(&mut self) -> (r: Reply)
        ensures
            r == (Reply { code: OA_OK, halt: old(self)@.halts() }),
            final(self)@ == old(self)@.stopped(),
    {
        let halt = match self.state {
            Lifecycle::Running => true,
            _ => false,
        };
        if halt {
            self.state = Lifecycle::Opened;
        }
        Reply { code: OA_OK, halt }
    }

    /// Ends the driver. Says whether streams were still running.
    pub fn destroy(self) -> (halt: bool)
        ensures
            halt == self@.halts(),
    {
        match self.state {
            Lifecycle::Running => true,
            _ => false,
        }
    }

    /// The configuration that the driver proposes. `output` is what the
    /// selected output device says of its default stream, `input_channels`
    /// what the input device says, each `None` if the device does not say.
    pub fn get_default_config(&self, output: Option<StreamShape>, input_channels: Option<u16>) -> (r:
        Result<oa_stream_config, i32>)
        ensures
            r == self@.proposal(output, input_channels),
    {
        match self.state {
            Lifecycle::Unopened => {
                return Err(OA_ERR_DEVICE);
            },
            _ => {},
        }
        match output {
            None => Err(OA_ERR_DEVICE),
            Some(shape) => {
                let in_channels = if self.has_input {
                    match input_channels {
                        Some(n) => n,
                        None => 0,
                    }
                } else {
                    0
                };
                Ok(
                    oa_stream_config {
                        sample_rate: shape.sample_rate,
                        buffer_frames: 256,
                        in_channels,
                        out_channels: shape.channels,
                        format: oa_sample_format::OA_SAMPLE_F32,
                        layout: oa_buffer_layout::OA_BUF_INTERLEAVED,
                    },
                )
            },
        }
    }

    /// Starts a stream: says which streams to build. A refused start
    /// changes nothing.
    pub fn start(&mut self, cfg: Option<oa_stream_config>) -> (r: Result<StreamPlan, i32>)
        ensures
            match r {
                Err(code) => old(self)@.refusal(cfg) == Some(code) && final(self)@ == old(self)@,
                Ok(plan) => {
                    &&& old(self)@.refusal(cfg) is None
                    &&& plan == old(self)@.plan(cfg.unwrap())
                    &&& final(self)@ == (CallbackView {
                        state: Lifecycle::Running,
                        cfg: cfg.unwrap(),
                        ..old(self)@
                    })
                },
            },
    {
        let halt = match self.state {
            Lifecycle::Unopened => {
                return Err(OA_ERR_DEVICE);
            },
            Lifecycle::Opened => false,
            Lifecycle::Running => true,
        };
        let cfg = match cfg {
            Some(c) => c,
            None => {
                return Err(OA_ERR_INVALID_ARG);
            },
        };
        if !cfg.is_positive() || !fits(&cfg) {
            return Err(OA_ERR_INVALID_ARG);
        }
        let input = if self.has_input && cfg.in_channels > 0 {
            Some(StreamShape { channels: cfg.in_channels, sample_rate: cfg.sample_rate })
        } else {
            None
        };
        self.cfg = cfg;
        self.state = Lifecycle::Running;
        Ok(
            StreamPlan {
                halt,
                input,
                output: StreamShape { channels: cfg.out_channels, sample_rate: cfg.sample_rate },
            },
        )
    }

    /// The framework does not say what its latency is: zero both ways.
    pub fn get_latency(&self) -> (r: (u32, u32))
        ensures
            r == (0u32, 0u32),
    {
        (0, 0)
    }

    /// The sample rate is set by `start` alone.
    pub fn set_sample_rate(&self, rate: u32) -> (code: i32)
        ensures
            code == OA_ERR_UNSUPPORTED,
    {
        OA_ERR_UNSUPPORTED
    }

    /// The block size is the framework's choice.
    pub fn set_buffer_frames(&self, frames: u32) -> (code: i32)
        ensures
            code == OA_ERR_UNSUPPORTED,
    {
        OA_ERR_UNSUPPORTED
    }
}

/// A driver that is created and destroyed at once has no streams to drop
/// and no device selected.
pub proof fn lemma_create_destroy_is_quiet()
    ensures
        !CallbackView::fresh().halts(),
        CallbackView::fresh().state == Lifecycle::Unopened,
{
}

/// The capability bits say what the driver offers: both directions, and
/// both at once; and neither mutator, each of which answers that it is
/// not supported. No other bit is set.
pub proof fn lemma_caps_match_mutators()
    ensures
        OA_CAP_OUTPUT + OA_CAP_INPUT + OA_CAP_FULL_DUPLEX == 7,
        spec_has_cap(7, OA_CAP_OUTPUT),
        spec_has_cap(7, OA_CAP_INPUT),
        spec_has_cap(7, OA_CAP_FULL_DUPLEX),
        !spec_has_cap(7, OA_CAP_SET_SAMPLERATE),
        !spec_has_cap(7, OA_CAP_SET_BUFFRAMES),
{
    assert(7u32 & 1u32 == 1u32) by (bit_vector);
    assert(7u32 & 2u32 == 2u32) by (bit_vector);
    assert(7u32 & 4u32 == 4u32) by (bit_vector);
    assert(7u32 & 8u32 != 8u32) by (bit_vector);
    assert(7u32 & 16u32 != 16u32) by (bit_vector);
}

/// After `stop`, and after `close_device`, no stream runs, and to stop or
/// close again changes nothing.
pub proof fn lemma_stop_is_idempotent(v: CallbackView)
    ensures
        !v.stopped().halts(),
        !v.closed().halts(),
        v.stopped().stopped() == v.stopped(),
        v.closed().closed() == v.closed(),
{
}

/// How many samples one frame of a block holds: the channel count, or one
/// for a direction without channels.
pub open spec fn spec_width(channels: u16) -> nat {
    if channels == 0 {
        1
    } else {
        channels as nat
    }
}

/// How many whole frames a block of `len` samples holds.
pub open spec fn spec_block_frames(len: nat, channels: u16) -> nat {
    len / spec_width(channels)
}

/// How many samples the whole frames of a block of `len` samples hold.
pub open spec fn spec_whole_len(len: nat, channels: u16) -> nat {
    spec_block_frames(len, channels) * spec_width(channels)
}

/// How many whole frames a block of `len` samples holds.
pub fn block_frames(len: usize, channels: u16) -> (r: usize)
    ensures
        r == spec_block_frames(len as nat, channels),
        r * spec_width(channels) <= len,
{
    let width: usize = if channels == 0 {
        1
    } else {
        channels as usize
    };
    proof {
        vstd::arithmetic::div_mod::lemma_fundamental_div_mod(len as int, width as int);
        vstd::arithmetic::div_mod::lemma_mod_pos_bound(len as int, width as int);
        assert((len / width) * width == width * (len / width)) by (nonlinear_arith);
    }
    len / width
}

/// The frame count that the host is told: the count cut to 32 bits.
pub open spec fn spec_frames_code(frames: usize) -> u32 {
    (frames as nat % 0x1_0000_0000) as u32
}

#[verifier::when_used_as_spec(spec_frames_code)]
pub fn frames_code(frames: usize) -> (r: u32)
    ensures
        r == spec_frames_code(frames),
{
    (frames as u64 % 0x1_0000_0000) as u32
}

/// `s`, made `len` long with `value` if it is shorter.
pub open spec fn grown<T>(s: Seq<T>, len: nat, value: T) -> Seq<T> {
    if s.len() >= len {
        s
    } else {
        s + Seq::new((len - s.len()) as nat, |i: int| value)
    }
}

/// Makes `buf` `len` long with `value` if it is shorter.
pub fn grow<T: Copy>(buf: &mut Vec<T>, len: usize, value: T)
    ensures
        final(buf)@ == grown(old(buf)@, len as nat, value),
{
    let ghost start = buf@;
    while buf.len() < len
        invariant
            start == old(buf)@,
            start.len() <= buf@.len(),
            buf@.len() <= len || buf@ == start,
            buf@ == start + Seq::new((buf@.len() - start.len()) as nat, |i: int| value),
        decreases len - buf@.len(),
    {
        let ghost prev = buf@;
        buf.push(value);
        assert(buf@ =~= start + Seq::new((buf@.len() - start.len()) as nat, |i: int| value));
    }
    assert(buf@ =~= grown(start, len as nat, value));
}

/// The buffers that the callbacks of one stream work on.
pub struct CallbackStage<T> {
    /// The sample that stands for silence.
    pub silence: T,
    /// The latest captured block, interleaved.
    pub in_buf: Vec<T>,
    /// How many captured blocks were stored; stays at its largest value
    /// rather than start again from zero.
    pub in_seq: usize,
    /// The latest time that the host was told; zero before the first call.
    pub time: u64,
    /// Planar copy of the stored input, for a host that reads planes.
    pub in_scratch: Vec<T>,
    /// Planar block that a host that writes planes writes to.
    pub scratch: Vec<T>,
}

impl<T: Copy> CallbackStage<T> {
    /// The buffers of a stream that is about to run: the input holds one
    /// period of silence, so a host that is called before any input has
    /// arrived reads silence.
    pub fn new(cfg: &oa_stream_config, silence: T) -> (r: CallbackStage<T>)
        requires
            spec_fits(*cfg),
        ensures
            r.silence == silence,
            r.in_buf@ == Seq::new(spec_input_len(*cfg), |i: int| silence),
            r.in_seq == 0,
            r.time == 0,
            r.in_scratch@ == Seq::<T>::empty(),
            r.scratch@ == Seq::<T>::empty(),
    {
        let frames = cfg.buffer_frames as usize;
        let width: usize = if cfg.in_channels == 0 {
            1
        } else {
            cfg.in_channels as usize
        };
        CallbackStage {
            silence,
            in_buf: repeat(silence, frames * width),
            in_seq: 0,
            time: 0,
            in_scratch: Vec::new(),
            scratch: Vec::new(),
        }
    }

    /// Stores a captured block: its whole frames replace the start of
    /// the stored input, which grows if it was shorter.
    pub fn store_input(&mut self, data: &[T], in_channels: u16)
        ensures
            final(self).silence == old(self).silence,
            final(self).time == old(self).time,
            final(self).scratch@ == old(self).scratch@,
            final(self).in_scratch@ == old(self).in_scratch@,
            final(self).in_buf@ == overlaid(
                grown(old(self).in_buf@, spec_whole_len(data@.len(), in_channels), old(self).silence),
                data@,
                spec_whole_len(data@.len(), in_channels) as int,
            ),
            final(self).in_seq == (if old(self).in_seq == usize::MAX {
                usize::MAX
            } else {
                (old(self).in_seq + 1) as usize
            }),
    {
        let width: usize = if in_channels == 0 {
            1
        } else {
            in_channels as usize
        };
        let frames = block_frames(data.len(), in_channels);
        let len = frames * width;
        grow(&mut self.in_buf, len, self.silence);
        overlay(&mut self.in_buf, data, len);
        if self.in_seq < usize::MAX {
            self.in_seq = self.in_seq + 1;
        }
    }

    /// What the host is told of time and lost periods, for a clock reading:
    /// a time that never falls, and no lost periods, since the framework
    /// reports none.
    pub fn time_info(&mut self, elapsed_ns: u128) -> (r: oa_time_info)
        ensures
            r == (oa_time_info {
                host_time_ns: host_time(old(self).time, elapsed_ns),
                device_time_ns: 0,
                underruns: 0,
                overruns: 0,
            }),
            final(self).time == r.host_time_ns,
            final(self).silence == old(self).silence,
            final(self).in_seq == old(self).in_seq,
            final(self).in_buf@ == old(self).in_buf@,
            final(self).in_scratch@ == old(self).in_scratch@,
            final(self).scratch@ == old(self).scratch@,
    {
        self.time = next_host_time(self.time, elapsed_ns);
        oa_time_info { host_time_ns: self.time, device_time_ns: 0, underruns: 0, overruns: 0 }
    }

    /// What the host is handed as input.
    pub fn source(cfg: &oa_stream_config) -> (r: Source)
        ensures
            r == (if cfg.in_channels == 0 {
                Source::Absent
            } else if cfg.layout.is_interleaved() {
                Source::Interleaved
            } else {
                Source::Planes
            }),
    {
        if cfg.in_channels == 0 {
            Source::Absent
        } else if cfg.layout.is_interleaved() {
            Source::Interleaved
        } else {
            Source::Planes
        }
    }

    /// What the host is handed for its output.
    pub fn target(cfg: &oa_stream_config) -> (r: Target)
        ensures
            r == (if cfg.layout.is_interleaved() {
                Target::Interleaved
            } else {
                Target::Planes
            }),
    {
        if cfg.layout.is_interleaved() {
            Target::Interleaved
        } else {
            Target::Planes
        }
    }

    /// Readies the stored input for a host that reads `frames` frames of
    /// it: the input grows with silence if it holds fewer.
    pub fn pad_input(&mut self, frames: usize, in_channels: u16)
        requires
            frames * in_channels <= usize::MAX,
        ensures
            final(self).silence == old(self).silence,
            final(self).time == old(self).time,
            final(self).in_seq == old(self).in_seq,
            final(self).scratch@ == old(self).scratch@,
            final(self).in_scratch@ == old(self).in_scratch@,
            final(self).in_buf@ == grown(
                old(self).in_buf@,
                (frames * in_channels) as nat,
                old(self).silence,
            ),
    {
        grow(&mut self.in_buf, frames * (in_channels as usize), self.silence);
    }

    /// Readies the stored input for a host that reads `frames` frames of
    /// it as planes: the input grows with silence if it holds fewer, and
    /// its first `frames` frames are scattered into the planar copy.
    /// Returns where each plane starts in the copy.
    pub fn begin_input_planes(&mut self, frames: usize, in_channels: u16) -> (r: Vec<usize>)
        requires
            frames * in_channels <= usize::MAX,
        ensures
            final(self).silence == old(self).silence,
            final(self).time == old(self).time,
            final(self).in_seq == old(self).in_seq,
            final(self).scratch@ == old(self).scratch@,
            final(self).in_buf@ == grown(
                old(self).in_buf@,
                (frames * in_channels) as nat,
                old(self).silence,
            ),
            final(self).in_scratch@ == overlaid(
                grown(old(self).in_scratch@, (frames * in_channels) as nat, old(self).silence),
                deinterleave(final(self).in_buf@, frames as nat, in_channels as nat),
                frames * in_channels,
            ),
            r@.len() == in_channels,
            forall|c: int| 0 <= c < in_channels ==> #[trigger] r@[c] == c * frames,
    {
        let channels = in_channels as usize;
        let total = frames * channels;
        grow(&mut self.in_buf, total, self.silence);
        grow(&mut self.in_scratch, total, self.silence);
        scatter(self.in_buf.as_slice(), frames, channels, &mut self.in_scratch);
        plane_offsets(frames, channels)
    }

    /// Readies the scratch for a host that writes planes, for a block of
    /// `frames` frames: the scratch grows if it was shorter. Returns where
    /// each plane starts in it.
    pub fn begin_planes(&mut self, frames: usize, out_channels: u16) -> (r: Vec<usize>)
        requires
            frames * out_channels <= usize::MAX,
        ensures
            final(self).silence == old(self).silence,
            final(self).time == old(self).time,
            final(self).in_buf@ == old(self).in_buf@,
            final(self).in_scratch@ == old(self).in_scratch@,
            final(self).in_seq == old(self).in_seq,
            final(self).scratch@ == grown(
                old(self).scratch@,
                (frames * out_channels) as nat,
                old(self).silence,
            ),
            r@.len() == out_channels,
            forall|c: int| 0 <= c < out_channels ==> #[trigger] r@[c] == c * frames,
    {
        let channels = out_channels as usize;
        grow(&mut self.scratch, frames * channels, self.silence);
        plane_offsets(frames, channels)
    }

    /// Gathers what a host wrote to its planes into the framework's block.
    pub fn finish_planes(&self, frames: usize, out_channels: u16, block: &mut Vec<T>)
        requires
            frames * out_channels <= self.scratch@.len(),
            frames * out_channels <= old(block)@.len(),
        ensures
            final(block)@ == overlaid(
                old(block)@,
                interleave(self.scratch@, frames as nat, out_channels as nat),
                frames * out_channels,
            ),
    {
        gather(self.scratch.as_slice(), frames, out_channels as usize, block);
    }
}

} // verus!
