//! Parsing of one fixed-size analog report into scancode/value readings.
//!
//! A report is 48 bytes: 16 consecutive 3-byte groups `[hi, lo, analog]`.
//! A group with `hi == 0 && lo == 0` carries no key and is skipped; any other
//! group yields the scancode `(hi << 8) | lo` and the model-scaled analog
//! value.

use vstd::prelude::*;

use crate::catalog::DeviceModel;
use crate::catalog::spec_scale;
use crate::catalog::UNIT_FULL;

verus! {

/// The fixed size of one analog report.
pub const REPORT_BYTES: usize = 48;

/// One analog reading: a key's scancode, its scaled value in units of
/// 1/1275 of full travel, and the monotonic timestamp of the report it
/// came from, in microseconds.
#[derive(Clone, Copy, PartialEq, Eq, Structural, Debug)]
pub struct ReadKey {
    pub code: u16,
    pub value: u16,
    pub ts_us: u64,
}

/// The scancode encoded by a group's first two bytes.
pub open spec fn spec_scancode(hi: u8, lo: u8) -> u16 {
    ((hi as u16) << 8) | (lo as u16)
}

/// The readings of a report: the non-empty 3-byte groups, in report order.
pub open spec fn spec_parse(m: DeviceModel, bytes: Seq<u8>, ts_us: u64) -> Seq<ReadKey>
    decreases bytes.len(),
{
    if bytes.len() < 3 {
        Seq::empty()
    } else {
        let rest = spec_parse(m, bytes.skip(3), ts_us);
        if bytes[0] == 0 && bytes[1] == 0 {
            rest
        } else {
            seq![
                ReadKey {
                    code: spec_scancode(bytes[0], bytes[1]),
                    value: spec_scale(m, bytes[2]),
                    ts_us,
                },
            ] + rest
        }
    }
}

/// Every reading of a report carries the report's timestamp and a value
/// clamped to full travel.
pub proof fn lemma_parse_readings_bounded(m: DeviceModel, bytes: Seq<u8>, ts_us: u64)
    ensures
        forall|j: int|
            0 <= j < spec_parse(m, bytes, ts_us).len() ==> {
                &&& (#[trigger] spec_parse(m, bytes, ts_us)[j]).value <= UNIT_FULL
                &&& spec_parse(m, bytes, ts_us)[j].ts_us == ts_us
            },
    decreases bytes.len(),
{
    if bytes.len() >= 3 {
        lemma_parse_readings_bounded(m, bytes.skip(3), ts_us);
        let rest = spec_parse(m, bytes.skip(3), ts_us);
        let whole = spec_parse(m, bytes, ts_us);
        assert forall|j: int| 0 <= j < whole.len() implies (#[trigger] whole[j]).value <= UNIT_FULL
            && whole[j].ts_us == ts_us by {
            if bytes[0] == 0 && bytes[1] == 0 {
                assert(whole[j] == rest[j]);
            } else if j == 0 {
                assert(whole[0].value == spec_scale(m, bytes[2]));
            } else {
                assert(whole[j] == rest[j - 1]);
            }
        }
    }
}

/// Parse one analog report read from a device of model `m`, taken at
/// monotonic time `ts_us`.
pub fn parse_report(m: DeviceModel, buf: &[u8], ts_us: u64) -> (r: Vec<ReadKey>)
    requires
        buf@.len() == REPORT_BYTES,
    ensures
        r@ == spec_parse(m, buf@, ts_us),
        forall|j: int|
            0 <= j < r@.len() ==> (#[trigger] r@[j]).value <= UNIT_FULL && r@[j].ts_us == ts_us,
{
    proof {
        lemma_parse_readings_bounded(m, buf@, ts_us);
    }
    let mut out: Vec<ReadKey> = Vec::new();
    let mut i: usize = 0;
    proof {
        assert(buf@.skip(0) =~= buf@);
    }
    while i < REPORT_BYTES / 3
        invariant
            i <= REPORT_BYTES / 3,
            buf@.len() == REPORT_BYTES,
            spec_parse(m, buf@, ts_us) == out@ + spec_parse(m, buf@.skip(3 * i as int), ts_us),
        decreases REPORT_BYTES / 3 - i,
    {
        let hi = buf[3 * i];
        let lo = buf[3 * i + 1];
        let raw = buf[3 * i + 2];
        proof {
            let rem = buf@.skip(3 * i as int);
            assert(rem[0] == buf@[3 * i as int]);
            assert(rem[1] == buf@[3 * i as int + 1]);
            assert(rem[2] == buf@[3 * i as int + 2]);
            assert(rem.skip(3) =~= buf@.skip(3 * (i + 1) as int));
        }
        if hi != 0 || lo != 0 {
            let code: u16 = ((hi as u16) << 8) | (lo as u16);
            let value = m.analog_value_to_units(raw);
            out.push(ReadKey { code, value, ts_us });
            proof {
                assert(out@ + spec_parse(m, buf@.skip(3 * (i + 1) as int), ts_us) =~= spec_parse(
                    m,
                    buf@,
                    ts_us,
                ));
            }
        }
        i = i + 1;
    }
    proof {
        assert(out@ + spec_parse(m, buf@.skip(REPORT_BYTES as int), ts_us) =~= out@);
    }
    out
}

} // verus!
