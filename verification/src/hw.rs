//! What a device is asked for before a stream runs on it.
//!
//! A device is always driven with interleaved blocking reads and writes, at
//! the rate nearest to the one asked for, with a period nearest to the one
//! asked for and a ring of two periods. It starts once a whole period is
//! queued and wakes its reader or writer once a whole period is free.

use vstd::prelude::*;
use crate::abi::oa_stream_config;

verus! {

/// The hardware that a blocking driver is written for.
#[derive(Clone, Copy, Debug, PartialEq, Eq, Structural)]
pub enum Hardware {
    /// The audio controller of AMD's family 17h chip sets.
    Hda17h,
    /// The UMC202HD USB interface.
    Umc202hd,
}

/// Which way samples flow through a device.
#[derive(Clone, Copy, Debug, PartialEq, Eq, Structural)]
pub enum Direction {
    Capture,
    Playback,
}

/// How a device encodes one sample.
#[derive(Clone, Copy, Debug, PartialEq, Eq, Structural)]
pub enum HwFormat {
    /// 32-bit floating point.
    Float32,
    /// Signed 32-bit integers.
    Signed32,
}

/// The parameters that a device is set to.
#[derive(Clone, Copy, Debug, PartialEq, Eq, Structural)]
pub struct HwPlan {
    pub channels: u32,
    /// The rate asked for; the device takes the nearest that it has.
    pub rate: u32,
    pub format: HwFormat,
    /// Frames per period; the device takes the nearest that it has.
    pub period: i64,
    /// Frames in the device's ring.
    pub buffer: i64,
    /// Frames that must be queued before the device starts.
    pub start_threshold: i64,
    /// Frames that must be free before a blocked transfer wakes.
    pub avail_min: i64,
}

impl Hardware {
    /// Whether the hardware's device nodes are looked up in what the sound
    /// system lists, rather than known beforehand.
    pub open spec fn spec_lists_devices(self) -> bool {
        self == Hardware::Umc202hd
    }

    #[verifier::when_used_as_spec(spec_lists_devices)]
    pub fn lists_devices(self) -> (r: bool)
        ensures
            r == self.spec_lists_devices(),
    {
        match self {
            Hardware::Hda17h => false,
            Hardware::Umc202hd => true,
        }
    }

    /// The sample encoding that the hardware is driven with.
    pub open spec fn spec_format(self) -> HwFormat {
        match self {
            Hardware::Hda17h => HwFormat::Float32,
            Hardware::Umc202hd => HwFormat::Signed32,
        }
    }

    #[verifier::when_used_as_spec(spec_format)]
    pub fn format(self) -> (r: HwFormat)
        ensures
            r == self.spec_format(),
    {
        match self {
            Hardware::Hda17h => HwFormat::Float32,
            Hardware::Umc202hd => HwFormat::Signed32,
        }
    }
}

/// The parameters for one direction of a stream.
pub open spec fn hw_plan(hardware: Hardware, dir: Direction, cfg: oa_stream_config) -> HwPlan {
    HwPlan {
        channels: match dir {
            Direction::Capture => cfg.in_channels as u32,
            Direction::Playback => cfg.out_channels as u32,
        },
        rate: cfg.sample_rate,
        format: hardware.spec_format(),
        period: cfg.buffer_frames as i64,
        buffer: (2 * cfg.buffer_frames) as i64,
        start_threshold: cfg.buffer_frames as i64,
        avail_min: cfg.buffer_frames as i64,
    }
}

/// Whether the parameters of a stream are refused before the device is
/// asked: the UMC202HD is not offered a period of no frames.
pub open spec fn hw_refused(hardware: Hardware, cfg: oa_stream_config) -> bool {
    hardware == Hardware::Umc202hd && cfg.buffer_frames == 0
}

/// Works out the parameters for one direction of a stream.
pub fn hw_setup(hardware: Hardware, dir: Direction, cfg: &oa_stream_config) -> (r: Result<
    HwPlan,
    String,
>)
    ensures
        match r {
            Ok(plan) => !hw_refused(hardware, *cfg) && plan == hw_plan(hardware, dir, *cfg),
            Err(msg) => hw_refused(hardware, *cfg) && msg@ == "invalid buffer size"@,
        },
{
    let channels: u32 = match dir {
        Direction::Capture => cfg.in_channels as u32,
        Direction::Playback => cfg.out_channels as u32,
    };
    let period: i64 = cfg.buffer_frames as i64;
    match hardware {
        Hardware::Umc202hd => {
            if period <= 0 {
                return Err("invalid buffer size".to_owned());
            }
        },
        Hardware::Hda17h => {},
    }
    Ok(
        HwPlan {
            channels,
            rate: cfg.sample_rate,
            format: hardware.format(),
            period,
            buffer: period * 2,
            start_threshold: period,
            avail_min: period,
        },
    )
}

} // verus!
