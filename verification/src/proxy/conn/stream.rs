//! Non-blocking reads and writes, seen from their outcomes.

use crate::error::{Error, ErrorKind};
use crate::proxy::scap::common::{ScapEvent, ScapSenderWrt};
use std::time::Duration;
use vstd::prelude::*;
use vstd::slice::slice_subrange;

verus! {

/// A transport that can be switched between blocking and non-blocking mode.
pub trait NonBlock {
    fn set_non_blocking(&self, nonblocking: bool) -> Result<(), Error>;
}

/// What a non-blocking write amounts to, given what the transport said.
pub open spec fn spec_write_no_wait(outcome: Result<usize, Error>) -> Result<usize, Error> {
    match outcome {
        Ok(n) => Ok(n),
        Err(e) => if e.kind == ErrorKind::WouldBlock {
            Ok(0)
        } else {
            Err(e)
        },
    }
}

/// Turns the outcome of a non-blocking write into the count of bytes
/// written: a transport that would block wrote nothing, any other error
/// stands.
pub fn write_no_wait(outcome: Result<usize, Error>) -> (r: Result<usize, Error>)
    ensures
        r == spec_write_no_wait(outcome),
{
    match outcome {
        Ok(v) => Ok(v),
        Err(e) => match e.kind {
            ErrorKind::WouldBlock => Ok(0),
            _ => Err(e),
        },
    }
}

/// The count of bytes that a non-blocking read delivered, given what the
/// transport said: none where it would block; none is an error where the
/// transport reported zero bytes or failed.
pub open spec fn spec_read_count(outcome: Result<usize, Error>) -> Option<usize> {
    match outcome {
        Ok(n) => if n == 0 {
            None
        } else {
            Some(n)
        },
        Err(e) => if e.kind == ErrorKind::WouldBlock {
            Some(0)
        } else {
            None
        },
    }
}

/// Turns the outcome of a non-blocking read into `buffer` into the count of
/// bytes read and the capture event for them.
///
/// A transport that would block read nothing. A read of zero bytes means
/// that the peer closed: it is the error `WriteZero`. Any other error
/// stands. Bytes that were read go to `pcap` as seen at `timestamp`.
pub fn read_no_wait(
    outcome: Result<usize, Error>,
    buffer: &[u8],
    pcap: &ScapSenderWrt<'_>,
    timestamp: Duration,
) -> (r: Result<(usize, Option<ScapEvent>), Error>)
    requires
        outcome matches Ok(n) ==> n <= buffer@.len(),
    ensures
        r is Ok <==> spec_read_count(outcome) is Some,
        r matches Ok(v) ==> {
            &&& Some(v.0) == spec_read_count(outcome)
            &&& v.0 == 0 ==> v.1 is None
            &&& v.0 > 0 ==> match v.1 {
                Some(e) => Some(e@) == pcap.spec_event(timestamp, buffer@.subrange(0, v.0 as int)),
                None => pcap.spec_event(timestamp, buffer@.subrange(0, v.0 as int)) is None,
            }
        },
        r matches Err(e) ==> match outcome {
            Ok(_) => e.kind == ErrorKind::WriteZero && e.message@ == "Connection Closed"@,
            Err(o) => e == o,
        },
{
    let readed = match outcome {
        Ok(v) => v,
        Err(e) => match e.kind {
            ErrorKind::WouldBlock => return Ok((0, None)),
            _ => return Err(e),
        },
    };
    if readed == 0 {
        return Err(Error::new(ErrorKind::WriteZero, "Connection Closed"));
    }
    let (_, event) = pcap.write(slice_subrange(buffer, 0, readed), timestamp);
    Ok((readed, event))
}

} // verus!
