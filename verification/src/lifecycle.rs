//! What every driver has in common: the states of its life, and the
//! answers to the calls that move it from one to the next.

use vstd::prelude::*;
use crate::abi::{OA_ERR_INVALID_ARG, OA_OK};

verus! {

/// Where a driver is in its life.
#[derive(Clone, Copy, Debug, PartialEq, Eq, Structural)]
pub enum Lifecycle {
    /// No device is selected.
    Unopened,
    /// A device is selected; no stream runs.
    Opened,
    /// A stream runs.
    Running,
}

/// The answer to a call that may end a stream.
#[derive(Clone, Copy, Debug, PartialEq, Eq, Structural)]
pub struct Reply {
    /// The result code of the call.
    pub code: i32,
    /// Whether a stream was running: the caller halts its worker and lets
    /// go of the device handles.
    pub halt: bool,
}

/// The result code of a request to create a driver: the three pointers
/// that the request carries must all be given.
pub fn create_code(params_given: bool, out_given: bool, host_given: bool) -> (r: i32)
    ensures
        r == (if params_given && out_given && host_given {
            OA_OK
        } else {
            OA_ERR_INVALID_ARG
        }),
{
    if params_given && out_given && host_given {
        OA_OK
    } else {
        OA_ERR_INVALID_ARG
    }
}

} // verus!
