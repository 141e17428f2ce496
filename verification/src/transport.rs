//! The real-time transport: one period of audio at a time.
//!
//! The transport decides; its caller performs. The caller owns the devices,
//! the clock and the host callback. It hands the transport one event at a
//! time, the transport answers with what to do next:
//!
//! ```text
//! Begin ──▶ Capture ──Captured──▶ ReadClock ──Clock──▶ Process
//!                                                         │
//!  NextPeriod / Exit ◀──Played── Playback ◀──Returned─────┘
//! ```
//!
//! A stream without input channels skips the capture. An event that the
//! transport is not waiting for changes nothing and is answered `Ignored`.

use vstd::prelude::*;
use crate::abi::{oa_stream_config, oa_time_info};
use crate::staging::{Io, Source, Staging, StagingView, Target};

verus! {

/// What the transport is waiting for.
#[derive(Clone, Copy, Debug, PartialEq, Eq, Structural)]
pub enum Phase {
    /// Between two periods.
    Top,
    /// A capture transfer is under way.
    Capture,
    /// The input is staged; the clock is to be read.
    Ready,
    /// The host callback is running.
    Host,
    /// A playback transfer is under way.
    Playback,
    /// The loop has been left.
    Finished,
}

/// What happened outside the transport.
#[derive(Clone, Copy, Debug, PartialEq, Eq, Structural)]
pub enum Event {
    /// A period is about to begin; `keep_running` is the stream's running
    /// flag as read at this moment.
    Begin { keep_running: bool },
    /// The capture transfer returned.
    Captured { io: Io },
    /// The clock was read: so much time has passed since the stream started.
    Clock { elapsed_ns: u128 },
    /// The host callback returned; `keep` is false if it asked to stop.
    Returned { keep: bool },
    /// The playback transfer returned.
    Played { io: Io },
}

/// What the caller is to do next.
#[derive(Clone, Copy, Debug, PartialEq, Eq, Structural)]
pub enum Action {
    /// Leave the loop.
    Exit,
    /// Read `frames` frames from the capture device to the start of the
    /// interleaved input buffer, then report `Captured`.
    Capture { frames: u32 },
    /// Prepare the capture device again if asked to, read the clock, then
    /// report `Clock`.
    ReadClock { recover_capture: bool },
    /// Call the host's `process`, then report `Returned`.
    Process { frames: u32, input: Source, output: Target, time: oa_time_info },
    /// Write `frames` frames from the start of the interleaved output buffer
    /// to the playback device, then report `Played`.
    Playback { frames: u32 },
    /// Prepare the playback device again if asked to, then report `Begin`.
    NextPeriod { recover_playback: bool },
    /// The event was not expected; nothing changed.
    Ignored,
}

/// The part of a transport that decides: where in the period it is and what
/// it has counted.
pub ghost struct Control {
    pub phase: Phase,
    /// Whether the stream has a capture device.
    pub capture: bool,
    /// Whether the host has asked to stop.
    pub stopping: bool,
    pub underruns: u32,
    pub overruns: u32,
    /// Periods completed.
    pub periods: nat,
    /// Calls of the host's `process` asked for.
    pub calls: nat,
    /// The latest time that the host was told; zero before the first call.
    pub time: u64,
}

/// A counter after one more event: it stays at its largest value rather
/// than start again from zero.
pub open spec fn bumped(n: u32) -> u32 {
    if n == u32::MAX {
        n
    } else {
        (n + 1) as u32
    }
}

/// A counter after a transfer: one more if the transfer met an xrun.
pub open spec fn counted(n: u32, io: Io) -> u32 {
    if io == Io::Xrun {
        bumped(n)
    } else {
        n
    }
}

/// A clock reading in 64 bits: the reading itself, or the largest value if
/// the reading is beyond it.
pub open spec fn clock_cut(elapsed_ns: u128) -> u64 {
    if elapsed_ns > u64::MAX {
        u64::MAX
    } else {
        elapsed_ns as u64
    }
}

/// The time that the host is told, after it was last told `last`, for a
/// clock reading: the reading in 64 bits, and never less than `last`.
pub open spec fn host_time(last: u64, elapsed_ns: u128) -> u64 {
    if clock_cut(elapsed_ns) < last {
        last
    } else {
        clock_cut(elapsed_ns)
    }
}

impl Control {
    /// The control state of a stream that has just started.
    pub open spec fn fresh(capture: bool) -> Control {
        Control {
            phase: Phase::Top,
            capture,
            stopping: false,
            underruns: 0,
            overruns: 0,
            periods: 0,
            calls: 0,
            time: 0,
        }
    }

    /// Whether a call of `process` has been asked for in the period under
    /// way.
    pub open spec fn called(self) -> bool {
        self.phase == Phase::Host || self.phase == Phase::Playback
    }

    /// As many calls of `process` have been asked for as periods were
    /// completed, and one more if the period under way has had its call.
    pub open spec fn balanced(self) -> bool {
        self.calls == self.periods + (if self.called() {
            1nat
        } else {
            0nat
        })
    }
}

/// The control state after an event.
pub open spec fn step(c: Control, e: Event) -> Control {
    match (c.phase, e) {
        (Phase::Top, Event::Begin { keep_running }) => Control {
            phase: if !keep_running {
                Phase::Finished
            } else if c.capture {
                Phase::Capture
            } else {
                Phase::Ready
            },
            ..c
        },
        (Phase::Capture, Event::Captured { io }) => Control {
            phase: Phase::Ready,
            overruns: counted(c.overruns, io),
            ..c
        },
        (Phase::Ready, Event::Clock { elapsed_ns }) => Control {
            phase: Phase::Host,
            calls: c.calls + 1,
            time: host_time(c.time, elapsed_ns),
            ..c
        },
        (Phase::Host, Event::Returned { keep }) => Control {
            phase: Phase::Playback,
            stopping: !keep,
            ..c
        },
        (Phase::Playback, Event::Played { io }) => Control {
            phase: if c.stopping {
                Phase::Finished
            } else {
                Phase::Top
            },
            underruns: counted(c.underruns, io),
            periods: c.periods + 1,
            ..c
        },
        _ => c,
    }
}

/// The control state after a sequence of events.
pub open spec fn run(c: Control, events: Seq<Event>) -> Control
    decreases events.len(),
{
    if events.len() == 0 {
        c
    } else {
        step(run(c, events.drop_last()), events.last())
    }
}

/// What the transport answers to an event.
pub open spec fn react(
    c: Control,
    cfg: oa_stream_config,
    input: Source,
    output: Target,
    e: Event,
) -> Action {
    match (c.phase, e) {
        (Phase::Top, Event::Begin { keep_running }) => if !keep_running {
            Action::Exit
        } else if c.capture {
            Action::Capture { frames: cfg.buffer_frames }
        } else {
            Action::ReadClock { recover_capture: false }
        },
        (Phase::Capture, Event::Captured { io }) => Action::ReadClock {
            recover_capture: io == Io::Xrun,
        },
        (Phase::Ready, Event::Clock { elapsed_ns }) => Action::Process {
            frames: cfg.buffer_frames,
            input,
            output,
            time: oa_time_info {
                host_time_ns: host_time(c.time, elapsed_ns),
                device_time_ns: 0,
                underruns: c.underruns,
                overruns: c.overruns,
            },
        },
        (Phase::Host, Event::Returned { keep }) => Action::Playback { frames: cfg.buffer_frames },
        (Phase::Playback, Event::Played { io }) => if c.stopping {
            Action::Exit
        } else {
            Action::NextPeriod { recover_playback: io == Io::Xrun }
        },
        _ => Action::Ignored,
    }
}

/// The buffers after an event.
pub open spec fn staged<T>(s: StagingView<T>, phase: Phase, e: Event) -> StagingView<T> {
    match (phase, e) {
        (Phase::Capture, Event::Captured { io }) => s.capture(io),
        (Phase::Ready, Event::Clock { elapsed_ns }) => s.clear(),
        (Phase::Host, Event::Returned { keep }) => s.deliver(keep),
        _ => s,
    }
}

/// The transport of one run of a stream.
pub struct Transport {
    cfg: oa_stream_config,
    phase: Phase,
    stopping: bool,
    underruns: u32,
    overruns: u32,
    time: u64,
    periods: Ghost<nat>,
    calls: Ghost<nat>,
}

/// The time that the host is told, after it was last told `last`, for a
/// clock reading.
pub fn next_host_time(last: u64, elapsed_ns: u128) -> (r: u64)
    ensures
        r == host_time(last, elapsed_ns),
{
    let reading: u64 = if elapsed_ns > 0xFFFF_FFFF_FFFF_FFFF {
        0xFFFF_FFFF_FFFF_FFFF
    } else {
        elapsed_ns as u64
    };
    if reading < last {
        last
    } else {
        reading
    }
}

/// One more, unless the counter is at its largest value.
fn bump(n: u32) -> (r: u32)
    ensures
        r == bumped(n),
{
    if n == u32::MAX {
        n
    } else {
        n + 1
    }
}

impl Transport {
    /// The configuration that the stream was started with.
    pub closed spec fn spec_config(&self) -> oa_stream_config {
        self.cfg
    }

    /// The deciding part of the transport.
    pub closed spec fn control(&self) -> Control {
        Control {
            phase: self.phase,
            capture: self.cfg.in_channels > 0,
            stopping: self.stopping,
            underruns: self.underruns,
            overruns: self.overruns,
            periods: self.periods@,
            calls: self.calls@,
            time: self.time,
        }
    }

    /// The transport of a stream that is about to run: nothing counted.
    pub fn new(cfg: oa_stream_config) -> (r: Transport)
        ensures
            r.spec_config() == cfg,
            r.control() == Control::fresh(cfg.in_channels > 0),
    {
        Transport {
            cfg,
            phase: Phase::Top,
            stopping: false,
            underruns: 0,
            overruns: 0,
            time: 0,
            periods: Ghost(0),
            calls: Ghost(0),
        }
    }

    #[verifier::when_used_as_spec(spec_config)]
    pub fn config(&self) -> (r: oa_stream_config)
        ensures
            r == self.spec_config(),
    {
        self.cfg
    }

    /// What the transport is waiting for.
    pub fn phase(&self) -> (r: Phase)
        ensures
            r == self.control().phase,
    {
        self.phase
    }

    /// Playback transfers that met an xrun since the stream started.
    pub fn underruns(&self) -> (r: u32)
        ensures
            r == self.control().underruns,
    {
        self.underruns
    }

    /// Capture transfers that met an xrun since the stream started.
    pub fn overruns(&self) -> (r: u32)
        ensures
            r == self.control().overruns,
    {
        self.overruns
    }

    /// Takes one event, does to the stream's buffers what the event calls
    /// for, and says what to do next.
    pub fn step<T: Copy>(&mut self, stage: &mut Staging<T>, event: Event) -> (action: Action)
        requires
            old(stage)@.wf(),
            old(stage)@.shaped(old(self).spec_config()),
        ensures
            final(self).spec_config() == old(self).spec_config(),
            final(self).control() == step(old(self).control(), event),
            final(stage)@ == staged(old(stage)@, old(self).control().phase, event),
            final(stage)@.wf(),
            final(stage)@.shaped(old(self).spec_config()),
            action == react(
                old(self).control(),
                old(self).spec_config(),
                old(stage)@.source(),
                old(stage)@.target(),
                event,
            ),
    {
        match (self.phase, event) {
            (Phase::Top, Event::Begin { keep_running }) => {
                if !keep_running {
                    self.phase = Phase::Finished;
                    Action::Exit
                } else if self.cfg.in_channels > 0 {
                    self.phase = Phase::Capture;
                    Action::Capture { frames: self.cfg.buffer_frames }
                } else {
                    self.phase = Phase::Ready;
                    Action::ReadClock { recover_capture: false }
                }
            },
            (Phase::Capture, Event::Captured { io }) => {
                stage.capture(io);
                self.phase = Phase::Ready;
                match io {
                    Io::Xrun => {
                        self.overruns = bump(self.overruns);
                        Action::ReadClock { recover_capture: true }
                    },
                    _ => Action::ReadClock { recover_capture: false },
                }
            },
            (Phase::Ready, Event::Clock { elapsed_ns }) => {
                let input = stage.source();
                let output = stage.target();
                stage.clear();
                self.phase = Phase::Host;
                self.calls = Ghost(self.calls@ + 1);
                self.time = next_host_time(self.time, elapsed_ns);
                Action::Process {
                    frames: self.cfg.buffer_frames,
                    input,
                    output,
                    time: oa_time_info {
                        host_time_ns: self.time,
                        device_time_ns: 0,
                        underruns: self.underruns,
                        overruns: self.overruns,
                    },
                }
            },
            (Phase::Host, Event::Returned { keep }) => {
                stage.deliver(keep);
                self.phase = Phase::Playback;
                self.stopping = !keep;
                Action::Playback { frames: self.cfg.buffer_frames }
            },
            (Phase::Playback, Event::Played { io }) => {
                self.periods = Ghost(self.periods@ + 1);
                match io {
                    Io::Xrun => {
                        self.underruns = bump(self.underruns);
                    },
                    _ => {},
                }
                if self.stopping {
                    self.phase = Phase::Finished;
                    Action::Exit
                } else {
                    self.phase = Phase::Top;
                    match io {
                        Io::Xrun => Action::NextPeriod { recover_playback: true },
                        _ => Action::NextPeriod { recover_playback: false },
                    }
                }
            },
            _ => Action::Ignored,
        }
    }
}

/// The count of calls follows the answers: an event adds a call exactly
/// when the answer to it is `Process`, and such an answer always asks for
/// one whole period of frames.
pub proof fn lemma_call_is_process(
    c: Control,
    cfg: oa_stream_config,
    input: Source,
    output: Target,
    e: Event,
)
    ensures
        step(c, e).calls == c.calls + (if react(c, cfg, input, output, e) is Process {
            1nat
        } else {
            0nat
        }),
        react(c, cfg, input, output, e) matches Action::Process { frames, .. } ==> frames
            == cfg.buffer_frames,
        step(c, e).periods == c.periods + (if c.phase == Phase::Playback && e is Played {
            1nat
        } else {
            0nat
        }),
{
}

/// One call of `process` per period, whatever happens: if the calls and the
/// periods are in balance, they are in balance after any sequence of events.
pub proof fn lemma_one_call_per_period(c: Control, events: Seq<Event>)
    requires
        c.balanced(),
    ensures
        run(c, events).balanced(),
    decreases events.len(),
{
    if events.len() > 0 {
        lemma_one_call_per_period(c, events.drop_last());
    }
}

/// A stream that has just started is in balance, so at every later moment
/// it has asked for one call per completed period, and one more if the
/// period under way has had its call.
pub proof fn lemma_calls_from_start(capture: bool, events: Seq<Event>)
    ensures
        run(Control::fresh(capture), events).balanced(),
{
    lemma_one_call_per_period(Control::fresh(capture), events);
}

/// The events of one period of a stream, in their order.
pub open spec fn period_events(capture: bool, captured: Io, elapsed_ns: u128, keep: bool, played: Io) -> Seq<
    Event,
> {
    if capture {
        seq![
            Event::Begin { keep_running: true },
            Event::Captured { io: captured },
            Event::Clock { elapsed_ns },
            Event::Returned { keep },
            Event::Played { io: played },
        ]
    } else {
        seq![
            Event::Begin { keep_running: true },
            Event::Clock { elapsed_ns },
            Event::Returned { keep },
            Event::Played { io: played },
        ]
    }
}

/// A period that is carried out is completed, whatever the devices do: one
/// more period, one more call, the xruns counted, and the transport between
/// two periods again, or finished if the host asked to stop.
pub proof fn lemma_full_period(
    c: Control,
    captured: Io,
    elapsed_ns: u128,
    keep: bool,
    played: Io,
)
    requires
        c.phase == Phase::Top,
    ensures
        run(c, period_events(c.capture, captured, elapsed_ns, keep, played)) == (Control {
            phase: if keep {
                Phase::Top
            } else {
                Phase::Finished
            },
            stopping: !keep,
            overruns: if c.capture {
                counted(c.overruns, captured)
            } else {
                c.overruns
            },
            underruns: counted(c.underruns, played),
            periods: c.periods + 1,
            calls: c.calls + 1,
            time: host_time(c.time, elapsed_ns),
            ..c
        }),
{
    let events = period_events(c.capture, captured, elapsed_ns, keep, played);
    reveal_with_fuel(run, 6);
    if c.capture {
        let e4 = events.drop_last();
        let e3 = e4.drop_last();
        let e2 = e3.drop_last();
        let e1 = e2.drop_last();
        assert(e1.drop_last().len() == 0);
        assert(e1.last() == events[0] && e2.last() == events[1] && e3.last() == events[2]
            && e4.last() == events[3] && events.last() == events[4]);
    } else {
        let e3 = events.drop_last();
        let e2 = e3.drop_last();
        let e1 = e2.drop_last();
        assert(e1.drop_last().len() == 0);
        assert(e1.last() == events[0] && e2.last() == events[1] && e3.last() == events[2]
            && events.last() == events[3]);
    }
}

/// The xrun counters never fall while a stream runs.
pub proof fn lemma_counters_never_fall(c: Control, events: Seq<Event>)
    ensures
        c.underruns <= run(c, events).underruns,
        c.overruns <= run(c, events).overruns,
    decreases events.len(),
{
    if events.len() > 0 {
        lemma_counters_never_fall(c, events.drop_last());
    }
}

/// Once the loop has been left, nothing changes any more.
pub proof fn lemma_finished_is_final(c: Control, events: Seq<Event>)
    requires
        c.phase == Phase::Finished,
    ensures
        run(c, events) == c,
    decreases events.len(),
{
    if events.len() > 0 {
        lemma_finished_is_final(c, events.drop_last());
    }
}

/// A stream that finds its running flag cleared at the top of a period
/// never asks for a call of `process` again.
pub proof fn lemma_no_call_after_stop(c: Control, events: Seq<Event>)
    requires
        c.phase == Phase::Top,
    ensures
        run(step(c, Event::Begin { keep_running: false }), events).calls == c.calls,
        run(step(c, Event::Begin { keep_running: false }), events).phase == Phase::Finished,
{
    lemma_finished_is_final(step(c, Event::Begin { keep_running: false }), events);
}

/// A host that asks to stop gets one last transfer and no further call:
/// the period is completed, and the loop is left.
pub proof fn lemma_host_stop(c: Control, io: Io, events: Seq<Event>)
    requires
        c.phase == Phase::Host,
    ensures
        ({
            let last = step(step(c, Event::Returned { keep: false }), Event::Played { io });
            &&& last.phase == Phase::Finished
            &&& last.periods == c.periods + 1
            &&& run(last, events).calls == c.calls
        }),
{
    let last = step(step(c, Event::Returned { keep: false }), Event::Played { io });
    lemma_finished_is_final(last, events);
}

/// The time told to the host never falls, whatever the clock reads and
/// whatever else happens: after any sequence of events the latest time told
/// is at least what it was, and a call of `process` that is then asked for
/// is told a time that is at least that.
pub proof fn lemma_host_time_never_falls(
    c: Control,
    events: Seq<Event>,
    cfg: oa_stream_config,
    input: Source,
    output: Target,
    e: Event,
)
    ensures
        c.time <= run(c, events).time,
        react(run(c, events), cfg, input, output, e) matches Action::Process { time, .. } ==> {
            &&& c.time <= run(c, events).time <= time.host_time_ns
            &&& time.host_time_ns == step(run(c, events), e).time
        },
    decreases events.len(),
{
    if events.len() > 0 {
        lemma_host_time_never_falls(c, events.drop_last(), cfg, input, output, e);
    }
}

/// The time told is the clock's: a reading that is not behind the time told
/// last is told as it is, cut to 64 bits, and a reading below 2^64 is not
/// cut at all. A stream that has just started has been told no time, so a
/// first reading of zero is told as zero.
pub proof fn lemma_host_time_is_the_clock(last: u64, elapsed_ns: u128)
    ensures
        last <= clock_cut(elapsed_ns) ==> host_time(last, elapsed_ns) == clock_cut(elapsed_ns),
        elapsed_ns <= u64::MAX ==> clock_cut(elapsed_ns) == elapsed_ns,
        last <= host_time(last, elapsed_ns),
        Control::fresh(true).time == 0 && Control::fresh(false).time == 0,
        host_time(0, 0) == 0,
{
}

} // verus!
