//! The life of a blocking driver: created, opened, started, stopped,
//! closed, destroyed.
//!
//! A blocking driver owns a worker that reads from and writes to the device
//! once per period. The driver here keeps the books: which device is
//! selected, which configuration is in force, whether a stream runs. Its
//! caller owns the device handles and the worker, and does what the driver
//! tells it: halt the running stream, open the devices of a start plan,
//! report how that went.

use vstd::prelude::*;
use crate::abi::{
    oa_buffer_layout, oa_sample_format, oa_stream_config, spec_has_cap, OA_CAP_FULL_DUPLEX,
    OA_CAP_INPUT, OA_CAP_OUTPUT, OA_CAP_SET_BUFFRAMES, OA_CAP_SET_SAMPLERATE, OA_ERR_BACKEND,
    OA_ERR_DEVICE, OA_ERR_INVALID_ARG, OA_ERR_STATE, OA_ERR_UNSUPPORTED, OA_OK,
};
use crate::hw::{hw_plan, hw_setup, Direction, Hardware, HwPlan};
use crate::lifecycle::{Lifecycle, Reply};
use crate::listing::{deliver_list, delivered, join_names, joined};
use crate::staging::{fits, spec_fits};
use crate::text::before;
use crate::umc202hd::{
    ascending, default_device_name, device_pool, enumerate_umc202hd_devices, in_matrix,
    spec_in_matrix, supported, validate_config, DeviceHint,
};
use vstd::utf8::encode_utf8;

verus! {

/// How carrying out a start plan went.
#[derive(Clone, Copy, Debug, PartialEq, Eq, Structural)]
pub enum Opening {
    /// The devices are open and set up.
    Ready,
    /// A device could not be opened.
    DeviceFailed,
    /// A device did not take its parameters.
    BackendFailed,
}

/// What the caller does to start a stream.
#[derive(Debug)]
pub struct StartPlan {
    /// Whether a stream is running that has to be halted first.
    pub halt: bool,
    /// The device to open, for playback and, if asked for, for capture.
    pub device: String,
    /// The parameters of the playback device.
    pub playback: HwPlan,
    /// The parameters of the capture device, if the stream has input.
    pub capture: Option<HwPlan>,
    /// The configuration that the stream will run with.
    pub cfg: oa_stream_config,
}

/// The configuration that a blocking driver proposes.
pub open spec fn spec_default_config() -> oa_stream_config {
    oa_stream_config {
        sample_rate: 48000,
        buffer_frames: 128,
        in_channels: 2,
        out_channels: 2,
        format: oa_sample_format::OA_SAMPLE_F32,
        layout: oa_buffer_layout::OA_BUF_INTERLEAVED,
    }
}

/// The name by which the sound system's default device is opened.
pub open spec fn default_node() -> Seq<char> {
    "default"@
}

/// The devices that a driver for plain controllers lists.
pub open spec fn plain_listing() -> Seq<char> {
    "default\nhw:0,0\nhw:1,0\n"@
}

/// Whether `name` is the node that the UMC202HD is opened by when the host
/// names none: the first, in dictionary order, of the nodes it may be
/// reached by.
pub open spec fn is_default_device(hints: Seq<DeviceHint>, name: Seq<char>) -> bool {
    &&& device_pool(hints).contains(name)
    &&& forall|n: Seq<char>| #[trigger]
        device_pool(hints).contains(n) ==> n == name || before(name, n)
}

/// The mathematical content of a `PullDriver`.
pub ghost struct PullView {
    pub hardware: Hardware,
    pub state: Lifecycle,
    pub dev_name: Option<Seq<char>>,
    pub cfg: oa_stream_config,
    /// The configuration of a start that has begun and not finished.
    pub pending: Option<oa_stream_config>,
}

impl PullView {
    /// A driver that has just been created.
    pub open spec fn fresh(hardware: Hardware) -> PullView {
        PullView {
            hardware,
            state: Lifecycle::Unopened,
            dev_name: None,
            cfg: spec_default_config(),
            pending: None,
        }
    }

    /// Whether there is a stream to halt.
    pub open spec fn halts(self) -> bool {
        self.state == Lifecycle::Running
    }

    /// The state once a running stream has been halted.
    pub open spec fn settled(self) -> Lifecycle {
        if self.state == Lifecycle::Running {
            Lifecycle::Opened
        } else {
            self.state
        }
    }

    /// The driver after `stop`.
    pub open spec fn stopped(self) -> PullView {
        PullView { state: self.settled(), pending: None, ..self }
    }

    /// The driver after `close_device`.
    pub open spec fn closed(self) -> PullView {
        PullView { state: Lifecycle::Unopened, dev_name: None, pending: None, ..self }
    }

    /// The driver after `open_device` has settled on a device.
    pub open spec fn opened(self, dev_name: Option<Seq<char>>) -> PullView {
        PullView {
            state: if self.state == Lifecycle::Unopened {
                Lifecycle::Opened
            } else {
                self.state
            },
            dev_name,
            ..self
        }
    }

    /// Whether `got` is the device that `open_device` settles on when it is
    /// asked for `asked`.
    pub open spec fn resolves(
        self,
        asked: Option<Seq<char>>,
        hints: Seq<DeviceHint>,
        got: Option<Seq<char>>,
    ) -> bool {
        match asked {
            Some(n) => got == Some(n),
            None => match self.hardware {
                Hardware::Hda17h => got is None,
                Hardware::Umc202hd => got matches Some(g) && is_default_device(hints, g),
            },
        }
    }

    /// Whether `device` is the node that a start opens.
    pub open spec fn starts_on(self, hints: Seq<DeviceHint>, device: Seq<char>) -> bool {
        match self.dev_name {
            Some(n) => device == n,
            None => match self.hardware {
                Hardware::Hda17h => device == default_node(),
                Hardware::Umc202hd => is_default_device(hints, device),
            },
        }
    }

    /// Why a start is refused before any device is touched, if it is. A
    /// configuration outside the matrix of the UMC202HD is unsupported.
    /// No configuration, a sample rate or a period of zero, and buffers
    /// that this machine cannot address are invalid arguments.
    pub open spec fn refusal(self, cfg: Option<oa_stream_config>) -> Option<i32> {
        match cfg {
            None => Some(OA_ERR_INVALID_ARG),
            Some(c) => if self.hardware == Hardware::Umc202hd && !spec_in_matrix(c) {
                Some(OA_ERR_UNSUPPORTED)
            } else if !c.is_positive() {
                Some(OA_ERR_INVALID_ARG)
            } else if !spec_fits(c) {
                Some(OA_ERR_INVALID_ARG)
            } else {
                None
            },
        }
    }

    /// Whether a configuration may run on the hardware: it is positive, its
    /// buffers can be addressed, and the UMC202HD takes it.
    pub open spec fn runs(self, c: oa_stream_config) -> bool {
        &&& c.is_positive()
        &&& spec_fits(c)
        &&& self.hardware == Hardware::Umc202hd ==> supported(c)
    }

    /// The driver after a start has begun.
    pub open spec fn begun(self, cfg: oa_stream_config) -> PullView {
        PullView { state: self.settled(), pending: Some(cfg), ..self }
    }

    /// The driver after a start has finished.
    pub open spec fn finished(self, outcome: Opening) -> PullView {
        match self.pending {
            None => self,
            Some(c) => if outcome == Opening::Ready {
                PullView { state: Lifecycle::Running, cfg: c, pending: None, ..self }
            } else {
                PullView { pending: None, ..self }
            },
        }
    }

    /// The result code of a start that has finished.
    pub open spec fn finish_code(self, outcome: Opening) -> i32 {
        if self.pending is None {
            OA_ERR_STATE
        } else {
            match outcome {
                Opening::Ready => OA_OK,
                Opening::DeviceFailed => OA_ERR_DEVICE,
                Opening::BackendFailed => OA_ERR_BACKEND,
            }
        }
    }

    /// The capability bits that the driver declares, on either hardware:
    /// output, input, and both at once. Neither mutator is offered, so
    /// neither of their bits is set.
    pub open spec fn caps(self) -> u32 {
        (OA_CAP_OUTPUT + OA_CAP_INPUT + OA_CAP_FULL_DUPLEX) as u32
    }

    /// The latency that the driver reports, in frames: input, then output.
    pub open spec fn latency(self) -> (u32, u32) {
        match self.hardware {
            Hardware::Hda17h => (0, 0),
            Hardware::Umc202hd => (
                if self.cfg.in_channels > 0 {
                    self.cfg.buffer_frames
                } else {
                    0
                },
                self.cfg.buffer_frames,
            ),
        }
    }

    /// What the books promise: a configuration that runs, or is about to,
    /// is one that the hardware takes and this machine can address; and no
    /// start is under way while a stream runs.
    pub open spec fn wf(self) -> bool {
        &&& self.pending matches Some(c) ==> self.runs(c) && self.state != Lifecycle::Running
        &&& self.state == Lifecycle::Running ==> self.runs(self.cfg)
    }
}

/// The books of a blocking driver.
pub struct PullDriver {
    hardware: Hardware,
    state: Lifecycle,
    dev_name: Option<String>,
    cfg: oa_stream_config,
    pending: Option<oa_stream_config>,
}

impl View for PullDriver {
    type V = PullView;

    closed spec fn view(&self) -> PullView {
        PullView {
            hardware: self.hardware,
            state: self.state,
            dev_name: match self.dev_name {
                Some(n) => Some(n@),
                None => None,
            },
            cfg: self.cfg,
            pending: self.pending,
        }
    }
}

/// The configuration that a blocking driver proposes.
#[verifier::when_used_as_spec(spec_default_config)]
pub fn default_config() -> (r: oa_stream_config)
    ensures
        r == spec_default_config(),
{
    oa_stream_config {
        sample_rate: 48000,
        buffer_frames: 128,
        in_channels: 2,
        out_channels: 2,
        format: oa_sample_format::OA_SAMPLE_F32,
        layout: oa_buffer_layout::OA_BUF_INTERLEAVED,
    }
}

impl PullDriver {
    #[verifier::type_invariant]
    spec fn inv(self) -> bool {
        self@.wf()
    }

    /// A driver as it is created: no device selected, no stream, nothing
    /// touched.
    pub fn new(hardware: Hardware) -> (r: PullDriver)
        ensures
            r@ == PullView::fresh(hardware),
    {
        PullDriver {
            hardware,
            state: Lifecycle::Unopened,
            dev_name: None,
            cfg: default_config(),
            pending: None,
        }
    }

    pub fn hardware(&self) -> (r: Hardware)
        ensures
            r == self@.hardware,
    {
        self.hardware
    }

    pub fn state(&self) -> (r: Lifecycle)
        ensures
            r == self@.state,
            self@.wf(),
    {
        proof {
            use_type_invariant(self);
        }
        self.state
    }

    /// The configuration in force: that of the last stream that started.
    pub fn config(&self) -> (r: oa_stream_config)
        ensures
            r == self@.cfg,
            self@.state == Lifecycle::Running ==> spec_fits(r) && r.is_positive(),
    {
        proof {
            use_type_invariant(self);
        }
        self.cfg
    }

    /// The device that is selected, if one is.
    pub fn device_name(&self) -> (r: Option<String>)
        ensures
            match r {
                Some(n) => self@.dev_name == Some(n@),
                None => self@.dev_name is None,
            },
    {
        match &self.dev_name {
            Some(n) => Some(n.clone()),
            None => None,
        }
    }

    /// The capability bits that the driver declares.
    pub fn get_caps(&self) -> (r: u32)
        ensures
            r == self@.caps(),
    {
        OA_CAP_OUTPUT + OA_CAP_INPUT + OA_CAP_FULL_DUPLEX
    }

    /// The listing of devices, as it is written to a buffer of `len` bytes.
    pub fn query_devices(&self, hints: &Vec<DeviceHint>, len: usize) -> (r: Vec<u8>)
        ensures
            match self@.hardware {
                Hardware::Hda17h => r@ == delivered(encode_utf8(plain_listing()), len as nat),
                Hardware::Umc202hd => exists|names: Seq<Seq<char>>|
                    {
                        &&& ascending(names)
                        &&& forall|n: Seq<char>| #[trigger]
                            names.contains(n) <==> device_pool(hints@).contains(n)
                        &&& r@ == delivered(joined(names), len as nat)
                    },
            },
    {
        match self.hardware {
            Hardware::Hda17h => deliver_list("default\nhw:0,0\nhw:1,0\n".as_bytes(), len),
            Hardware::Umc202hd => {
                let names = enumerate_umc202hd_devices(hints);
                let list = join_names(&names);
                deliver_list(list.as_slice(), len)
            },
        }
    }

    /// Selects a device: the one asked for, or the default if none is asked
    /// for. A stream that runs goes on undisturbed.
    pub fn open_device(&mut self, name: Option<String>, hints: &Vec<DeviceHint>) -> (code: i32)
        ensures
            code == OA_OK,
            final(self)@ == old(self)@.opened(final(self)@.dev_name),
            old(self)@.resolves(
                match name {
                    Some(n) => Some(n@),
                    None => None,
                },
                hints@,
                final(self)@.dev_name,
            ),
    {
        proof {
            use_type_invariant(&*self);
        }
        let chosen = match name {
            Some(n) => Some(n),
            None => match self.hardware {
                Hardware::Hda17h => None,
                Hardware::Umc202hd => Some(default_device_name(hints)),
            },
        };
        self.dev_name = chosen;
        match self.state {
            Lifecycle::Unopened => {
                self.state = Lifecycle::Opened;
            },
            _ => {},
        }
        OA_OK
    }

    /// Ends the stream, if one runs, and forgets the selected device.
    pub fn close_device(&mut self) -> (r: Reply)
        ensures
            r == (Reply { code: OA_OK, halt: old(self)@.halts() }),
            final(self)@ == old(self)@.closed(),
    {
        proof {
            use_type_invariant(&*self);
        }
        let halt = match self.state {
            Lifecycle::Running => true,
            _ => false,
        };
        self.pending = None;
        self.state = Lifecycle::Unopened;
        self.dev_name = None;
        Reply { code: OA_OK, halt }
    }

    /// Ends the stream, if one runs. To stop a driver that does not run is
    /// no error.
    pub fn stop(&mut self) -> (r: Reply)
        ensures
            r == (Reply { code: OA_OK, halt: old(self)@.halts() }),
            final(self)@ == old(self)@.stopped(),
    {
        proof {
            use_type_invariant(&*self);
        }
        let halt = match self.state {
            Lifecycle::Running => true,
            _ => false,
        };
        self.pending = None;
        if halt {
            self.state = Lifecycle::Opened;
        }
        Reply { code: OA_OK, halt }
    }

    /// Ends the driver. Says whether a stream was still running, which the
    /// caller then halts.
    pub fn destroy(self) -> (halt: bool)
        ensures
            halt == self@.halts(),
    {
        match self.state {
            Lifecycle::Running => true,
            _ => false,
        }
    }

    /// The latency in frames, input first: one period each way on the
    /// UMC202HD, none for an input that is not used; unknown, and reported
    /// as zero, elsewhere.
    pub fn get_latency(&self) -> (r: (u32, u32))
        ensures
            r == self@.latency(),
    {
        match self.hardware {
            Hardware::Hda17h => (0, 0),
            Hardware::Umc202hd => (
                if self.cfg.in_channels > 0 {
                    self.cfg.buffer_frames
                } else {
                    0
                },
                self.cfg.buffer_frames,
            ),
        }
    }

    /// The sample rate is set by `start` alone.
    pub fn set_sample_rate(&self, rate: u32) -> (code: i32)
        ensures
            code == OA_ERR_UNSUPPORTED,
    {
        OA_ERR_UNSUPPORTED
    }

    /// The period is set by `start` alone.
    pub fn set_buffer_frames(&self, frames: u32) -> (code: i32)
        ensures
            code == OA_ERR_UNSUPPORTED,
    {
        OA_ERR_UNSUPPORTED
    }

    /// Begins a start: checks the configuration and, if it is taken, says
    /// what to open. A refused start changes nothing, and a stream that
    /// runs then goes on.
    pub fn begin_start(&mut self, cfg: Option<oa_stream_config>, hints: &Vec<DeviceHint>) -> (r:
        Result<StartPlan, i32>)
        ensures
            match r {
                Err(code) => old(self)@.refusal(cfg) == Some(code) && final(self)@ == old(self)@,
                Ok(plan) => {
                    &&& old(self)@.refusal(cfg) is None
                    &&& final(self)@ == old(self)@.begun(cfg.unwrap())
                    &&& plan.halt == old(self)@.halts()
                    &&& plan.cfg == cfg.unwrap()
                    &&& old(self)@.starts_on(hints@, plan.device@)
                    &&& plan.playback == hw_plan(old(self)@.hardware, Direction::Playback, plan.cfg)
                    &&& plan.capture == (if plan.cfg.in_channels > 0 {
                        Some(hw_plan(old(self)@.hardware, Direction::Capture, plan.cfg))
                    } else {
                        None
                    })
                },
            },
    {
        proof {
            use_type_invariant(&*self);
        }
        let cfg = match cfg {
            Some(c) => c,
            None => {
                return Err(OA_ERR_INVALID_ARG);
            },
        };
        match self.hardware {
            Hardware::Umc202hd => {
                if validate_config(&cfg).is_err() {
                    // What is in the matrix and is refused all the same has
                    // a period of no frames.
                    return Err(
                        if in_matrix(&cfg) {
                            OA_ERR_INVALID_ARG
                        } else {
                            OA_ERR_UNSUPPORTED
                        },
                    );
                }
            },
            Hardware::Hda17h => {},
        }
        if !cfg.is_positive() || !fits(&cfg) {
            return Err(OA_ERR_INVALID_ARG);
        }
        // Neither setup fails: what `hw_setup` refuses was refused above.
        let playback = match hw_setup(self.hardware, Direction::Playback, &cfg) {
            Ok(p) => p,
            Err(_) => {
                return Err(OA_ERR_BACKEND);
            },
        };
        let capture = if cfg.in_channels > 0 {
            match hw_setup(self.hardware, Direction::Capture, &cfg) {
                Ok(p) => Some(p),
                Err(_) => {
                    return Err(OA_ERR_BACKEND);
                },
            }
        } else {
            None
        };
        let device = match &self.dev_name {
            Some(n) => n.clone(),
            None => match self.hardware {
                Hardware::Hda17h => "default".to_owned(),
                Hardware::Umc202hd => default_device_name(hints),
            },
        };
        let halt = match self.state {
            Lifecycle::Running => true,
            _ => false,
        };
        if halt {
            self.state = Lifecycle::Opened;
        }
        self.pending = Some(cfg);
        Ok(StartPlan { halt, device, playback, capture, cfg })
    }

    /// Finishes a start that has begun: takes note of how opening the
    /// devices went. Without a start under way it is an error of state.
    pub fn finish_start(&mut self, outcome: Opening) -> (code: i32)
        ensures
            code == old(self)@.finish_code(outcome),
            final(self)@ == old(self)@.finished(outcome),
            code == OA_OK ==> final(self)@.state == Lifecycle::Running && final(self)@.runs(
                final(self)@.cfg,
            ),
    {
        proof {
            use_type_invariant(&*self);
        }
        let cfg = match self.pending {
            Some(c) => c,
            None => {
                return OA_ERR_STATE;
            },
        };
        match outcome {
            Opening::Ready => {
                self.cfg = cfg;
                self.pending = None;
                self.state = Lifecycle::Running;
                OA_OK
            },
            Opening::DeviceFailed => {
                self.pending = None;
                OA_ERR_DEVICE
            },
            Opening::BackendFailed => {
                self.pending = None;
                OA_ERR_BACKEND
            },
        }
    }
}

/// A driver that is created and destroyed at once has nothing to halt and
/// nothing to let go of: no device was selected, let alone opened.
pub proof fn lemma_create_destroy_is_quiet(hardware: Hardware)
    ensures
        !PullView::fresh(hardware).halts(),
        PullView::fresh(hardware).dev_name is None,
        PullView::fresh(hardware).wf(),
{
}

/// After `stop`, and after `close_device`, no stream runs, and to stop or
/// close again changes nothing and halts nothing.
pub proof fn lemma_stop_is_idempotent(v: PullView)
    ensures
        !v.stopped().halts(),
        !v.closed().halts(),
        v.stopped().stopped() == v.stopped(),
        v.closed().closed() == v.closed(),
        v.closed().state == Lifecycle::Unopened,
{
}

/// A start that is refused opens nothing: it hands out no plan and leaves
/// the driver as it was. A configuration outside the matrix of the
/// UMC202HD is refused as unsupported, whatever else is wrong with it.
pub proof fn lemma_unsupported_start(v: PullView, cfg: oa_stream_config)
    requires
        v.hardware == Hardware::Umc202hd,
        !spec_in_matrix(cfg),
    ensures
        v.refusal(Some(cfg)) == Some(OA_ERR_UNSUPPORTED),
{
}

/// A configuration with a period of no frames, or a sample rate of zero,
/// that is not unsupported is an invalid argument, on either hardware. And
/// what is not refused may run.
pub proof fn lemma_positive_start(v: PullView, cfg: oa_stream_config)
    ensures
        !cfg.is_positive() ==> v.refusal(Some(cfg)) == Some(OA_ERR_UNSUPPORTED) || v.refusal(
            Some(cfg),
        ) == Some(OA_ERR_INVALID_ARG),
        !cfg.is_positive() && v.hardware == Hardware::Hda17h ==> v.refusal(Some(cfg)) == Some(
            OA_ERR_INVALID_ARG,
        ),
        cfg.buffer_frames == 0 && spec_in_matrix(cfg) ==> v.refusal(Some(cfg)) == Some(
            OA_ERR_INVALID_ARG,
        ),
        v.refusal(Some(cfg)) is None <==> v.runs(cfg),
{
}

/// The capability bits say what the driver offers: both directions, and
/// both at once; and neither mutator, each of which answers that it is
/// not supported. No other bit is set.
pub proof fn lemma_caps_match_mutators(v: PullView)
    ensures
        v.caps() == 7,
        spec_has_cap(v.caps(), OA_CAP_OUTPUT),
        spec_has_cap(v.caps(), OA_CAP_INPUT),
        spec_has_cap(v.caps(), OA_CAP_FULL_DUPLEX),
        !spec_has_cap(v.caps(), OA_CAP_SET_SAMPLERATE),
        !spec_has_cap(v.caps(), OA_CAP_SET_BUFFRAMES),
{
    assert(7u32 & 1u32 == 1u32) by (bit_vector);
    assert(7u32 & 2u32 == 2u32) by (bit_vector);
    assert(7u32 & 4u32 == 4u32) by (bit_vector);
    assert(7u32 & 8u32 != 8u32) by (bit_vector);
    assert(7u32 & 16u32 != 16u32) by (bit_vector);
}

/// A stream runs only through a start that began and found its devices
/// ready.
pub proof fn lemma_running_needs_start(v: PullView, outcome: Opening)
    requires
        v.wf(),
    ensures
        v.finished(outcome).wf(),
        v.finished(outcome).state == Lifecycle::Running <==> (v.state == Lifecycle::Running
            || (v.pending is Some && outcome == Opening::Ready)),
{
}

} // verus!
