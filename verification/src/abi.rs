//! The binary interface between host and driver: version, result codes,
//! capability bits, and the stream descriptions that cross it.

use vstd::prelude::*;

verus! {

pub const OA_VERSION_MAJOR: u32 = 1;

pub const OA_VERSION_MINOR: u32 = 0;

pub const OA_VERSION_PATCH: u32 = 0;

pub const OA_FALSE: i32 = 0;

pub const OA_TRUE: i32 = 1;

pub const OA_OK: i32 = 0;

pub const OA_ERR_GENERIC: i32 = -1;

pub const OA_ERR_UNSUPPORTED: i32 = -2;

pub const OA_ERR_INVALID_ARG: i32 = -3;

pub const OA_ERR_DEVICE: i32 = -4;

pub const OA_ERR_BACKEND: i32 = -5;

pub const OA_ERR_STATE: i32 = -6;

pub const OA_CAP_OUTPUT: u32 = 1;

pub const OA_CAP_INPUT: u32 = 2;

pub const OA_CAP_FULL_DUPLEX: u32 = 4;

pub const OA_CAP_SET_SAMPLERATE: u32 = 8;

pub const OA_CAP_SET_BUFFRAMES: u32 = 16;

/// How one sample is encoded.
#[allow(non_camel_case_types)]
#[derive(Clone, Copy, Debug, PartialEq, Eq, Structural)]
pub enum oa_sample_format {
    OA_SAMPLE_F32,
    OA_SAMPLE_I16,
}

/// How the samples of one period are laid out in memory.
#[allow(non_camel_case_types)]
#[derive(Clone, Copy, Debug, PartialEq, Eq, Structural)]
pub enum oa_buffer_layout {
    OA_BUF_INTERLEAVED,
    OA_BUF_NONINTERLEAVED,
}

impl oa_sample_format {
    /// The number that stands for this format on the wire.
    pub open spec fn spec_code(self) -> u32 {
        match self {
            oa_sample_format::OA_SAMPLE_F32 => 1,
            oa_sample_format::OA_SAMPLE_I16 => 2,
        }
    }

    #[verifier::when_used_as_spec(spec_code)]
    pub fn code(self) -> (r: u32)
        ensures
            r == self.spec_code(),
    {
        match self {
            oa_sample_format::OA_SAMPLE_F32 => 1,
            oa_sample_format::OA_SAMPLE_I16 => 2,
        }
    }

    /// The format that a wire number stands for, if any.
    pub fn from_code(code: u32) -> (r: Option<oa_sample_format>)
        ensures
            match r {
                Some(f) => f.spec_code() == code,
                None => code != 1 && code != 2,
            },
    {
        if code == 1 {
            Some(oa_sample_format::OA_SAMPLE_F32)
        } else if code == 2 {
            Some(oa_sample_format::OA_SAMPLE_I16)
        } else {
            None
        }
    }
}

impl oa_buffer_layout {
    /// The number that stands for this layout on the wire.
    pub open spec fn spec_code(self) -> u32 {
        match self {
            oa_buffer_layout::OA_BUF_INTERLEAVED => 1,
            oa_buffer_layout::OA_BUF_NONINTERLEAVED => 2,
        }
    }

    #[verifier::when_used_as_spec(spec_code)]
    pub fn code(self) -> (r: u32)
        ensures
            r == self.spec_code(),
    {
        match self {
            oa_buffer_layout::OA_BUF_INTERLEAVED => 1,
            oa_buffer_layout::OA_BUF_NONINTERLEAVED => 2,
        }
    }

    /// The layout that a wire number stands for, if any.
    pub fn from_code(code: u32) -> (r: Option<oa_buffer_layout>)
        ensures
            match r {
                Some(l) => l.spec_code() == code,
                None => code != 1 && code != 2,
            },
    {
        if code == 1 {
            Some(oa_buffer_layout::OA_BUF_INTERLEAVED)
        } else if code == 2 {
            Some(oa_buffer_layout::OA_BUF_NONINTERLEAVED)
        } else {
            None
        }
    }

    pub open spec fn spec_is_interleaved(self) -> bool {
        self == oa_buffer_layout::OA_BUF_INTERLEAVED
    }

    #[verifier::when_used_as_spec(spec_is_interleaved)]
    pub fn is_interleaved(self) -> (r: bool)
        ensures
            r == self.spec_is_interleaved(),
    {
        match self {
            oa_buffer_layout::OA_BUF_INTERLEAVED => true,
            oa_buffer_layout::OA_BUF_NONINTERLEAVED => false,
        }
    }
}

/// The stream parameters that host and driver agree on when a stream starts.
#[allow(non_camel_case_types)]
#[derive(Clone, Copy, Debug, PartialEq, Eq, Structural)]
pub struct oa_stream_config {
    pub sample_rate: u32,
    pub buffer_frames: u32,
    pub in_channels: u16,
    pub out_channels: u16,
    pub format: oa_sample_format,
    pub layout: oa_buffer_layout,
}

impl oa_stream_config {
    /// Whether the configuration names a stream at all: its sample rate and
    /// its period are above zero.
    pub open spec fn spec_is_positive(&self) -> bool {
        self.sample_rate > 0 && self.buffer_frames > 0
    }

    #[verifier::when_used_as_spec(spec_is_positive)]
    pub fn is_positive(&self) -> (r: bool)
        ensures
            r == self.spec_is_positive(),
    {
        self.sample_rate > 0 && self.buffer_frames > 0
    }
}

/// What the host is told about time and lost periods, once per period.
#[allow(non_camel_case_types)]
#[derive(Clone, Copy, Debug, PartialEq, Eq, Structural)]
pub struct oa_time_info {
    pub host_time_ns: u64,
    pub device_time_ns: u64,
    pub underruns: u32,
    pub overruns: u32,
}

/// Whether a set of capability bits holds all the bits of `cap`. A host
/// looks here before it uses a direction or calls a mutator.
pub open spec fn spec_has_cap(caps: u32, cap: u32) -> bool {
    caps & cap == cap
}

#[verifier::when_used_as_spec(spec_has_cap)]
pub fn has_cap(caps: u32, cap: u32) -> (r: bool)
    ensures
        r == spec_has_cap(caps, cap),
{
    caps & cap == cap
}

/// Whether a result code reports a failure.
pub open spec fn spec_is_error(rc: i32) -> bool {
    rc < 0
}

#[verifier::when_used_as_spec(spec_is_error)]
pub fn is_error(rc: i32) -> (r: bool)
    ensures
        r == spec_is_error(rc),
{
    rc < 0
}

/// The value that crosses the interface for a boolean.
pub open spec fn spec_bool_code(b: bool) -> i32 {
    if b {
        OA_TRUE
    } else {
        OA_FALSE
    }
}

#[verifier::when_used_as_spec(spec_bool_code)]
pub fn bool_code(b: bool) -> (r: i32)
    ensures
        r == spec_bool_code(b),
{
    if b {
        OA_TRUE
    } else {
        OA_FALSE
    }
}

/// How a driver reads the value that `process` returned: only `OA_FALSE`
/// asks it to stop.
pub open spec fn spec_wants_more(code: i32) -> bool {
    code != OA_FALSE
}

#[verifier::when_used_as_spec(spec_wants_more)]
pub fn wants_more(code: i32) -> (r: bool)
    ensures
        r == spec_wants_more(code),
{
    code != OA_FALSE
}

/// How many bytes of a versioned structure a reader may touch: a reader
/// built for `compiled` bytes that meets a structure announcing `runtime`
/// bytes reads the smaller of the two.
pub open spec fn spec_readable_size(runtime: u32, compiled: u32) -> u32 {
    if runtime <= compiled {
        runtime
    } else {
        compiled
    }
}

#[verifier::when_used_as_spec(spec_readable_size)]
pub fn readable_size(runtime: u32, compiled: u32) -> (r: u32)
    ensures
        r == spec_readable_size(runtime, compiled),
{
    if runtime <= compiled {
        runtime
    } else {
        compiled
    }
}

} // verus!
