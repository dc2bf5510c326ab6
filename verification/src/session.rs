//! One polling step of a hardware session.
//!
//! The session's dedicated thread does a blocking read of a fixed-size
//! report and hands the outcome to `session_step`, which decides: a failed
//! read means the device is gone (a normal exit, not a panic), a timed-out
//! read means no new data this tick, and a full report is parsed into its
//! batch of readings.

use vstd::prelude::*;

use crate::catalog::DeviceModel;
use crate::report::REPORT_BYTES;
use crate::report::ReadKey;
use crate::report::parse_report;
use crate::report::spec_parse;

verus! {

/// Why a session's polling loop stops reading.
#[derive(Clone, Copy, PartialEq, Eq, Structural, Debug)]
pub enum ReadErrors {
    DeviceDisconnected,
}

/// What one blocking read of the analog interface came back with; the
/// process fills it at the hardware boundary.
pub enum ReadOutcome {
    /// The read failed: the handle no longer reaches the device.
    Failed,
    /// A zero-length result: a timeout with no new data.
    TimedOut,
    /// A full report was read.
    Report(Vec<u8>),
}

/// Decide one polling step from the outcome of one blocking read, stamped
/// with the monotonic time of the read. A failed read is the device
/// disconnecting; a timeout is no data; a report is parsed whole — an
/// all-empty batch still flows out, so that downstream gap synthesis sees
/// every key released.
pub fn session_step(m: DeviceModel, outcome: &ReadOutcome, ts_us: u64) -> (r: Result<
    Option<Vec<ReadKey>>,
    ReadErrors,
>)
    requires
        outcome matches ReadOutcome::Report(b) ==> b@.len() == REPORT_BYTES,
    ensures
        outcome is Failed ==> r == Err::<Option<Vec<ReadKey>>, ReadErrors>(
            ReadErrors::DeviceDisconnected,
        ),
        outcome is TimedOut ==> r == Ok::<Option<Vec<ReadKey>>, ReadErrors>(None),
        outcome matches ReadOutcome::Report(b) ==> (r matches Ok(Some(v)) && v@ == spec_parse(
            m,
            b@,
            ts_us,
        )),
{
    match outcome {
        ReadOutcome::Failed => Err(ReadErrors::DeviceDisconnected),
        ReadOutcome::TimedOut => Ok(None),
        ReadOutcome::Report(b) => Ok(Some(parse_report(m, b.as_slice(), ts_us))),
    }
}

} // verus!
