//! Telling a broken pipe from other device errors.
//!
//! A blocking transfer that fails reports an error number. One number, the
//! operating system's code for a broken pipe, means that the device ran dry
//! or overflowed; the stream goes on once the device has been prepared
//! again. The code is the operating system's, so it is asked for, not
//! written down here.

use vstd::prelude::*;
use crate::staging::Io;

verus! {

/// Trusted: the number of `nix::errno::Errno::EPIPE`. Nothing is claimed of
/// it, since the number is the operating system's choice.
#[verifier::external_body]
fn broken_pipe_code() -> (r: i32) {
    nix::errno::Errno::EPIPE as i32
}

/// What a failed transfer means, given the code for a broken pipe.
pub open spec fn spec_fault(errno: i32, broken_pipe: i32) -> Io {
    if errno == broken_pipe {
        Io::Xrun
    } else {
        Io::Failed
    }
}

/// What a failed transfer means, given the code for a broken pipe.
#[verifier::when_used_as_spec(spec_fault)]
pub fn fault(errno: i32, broken_pipe: i32) -> (r: Io)
    ensures
        r == spec_fault(errno, broken_pipe),
{
    if errno == broken_pipe {
        Io::Xrun
    } else {
        Io::Failed
    }
}

/// What a failed transfer means on this machine.
pub fn io_fault(errno: i32) -> (r: Io)
    ensures
        r == Io::Xrun || r == Io::Failed,
{
    fault(errno, broken_pipe_code())
}

/// The outcome of a transfer that reports either the number of frames it
/// moved or an error number.
pub fn io_outcome(result: Result<usize, i32>) -> (r: Io)
    ensures
        match result {
            Ok(n) => r == Io::Done(n),
            Err(_) => r == Io::Xrun || r == Io::Failed,
        },
{
    match result {
        Ok(n) => Io::Done(n),
        Err(errno) => io_fault(errno),
    }
}

} // verus!
