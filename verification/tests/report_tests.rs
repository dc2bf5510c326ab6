use wooting_shouting::catalog::DeviceModel;
use wooting_shouting::catalog::UNIT_FULL;
use wooting_shouting::report::REPORT_BYTES;
use wooting_shouting::report::parse_report;
use wooting_shouting::session::ReadErrors;
use wooting_shouting::session::ReadOutcome;
use wooting_shouting::session::session_step;

fn buffer_with(groups: &[(u8, u8, u8)]) -> Vec<u8> {
    let mut buf = vec![0u8; REPORT_BYTES];
    for (i, (hi, lo, v)) in groups.iter().enumerate() {
        buf[3 * i] = *hi;
        buf[3 * i + 1] = *lo;
        buf[3 * i + 2] = *v;
    }
    buf
}

#[test]
fn parse_skips_empty_groups_and_keeps_order() {
    // group 0 empty, group 1 = key 0x0104, group 2 empty, group 3 = key 0x0016
    let buf = buffer_with(&[(0, 0, 99), (0x01, 0x04, 51), (0, 0, 0), (0x00, 0x16, 255)]);
    let readings = parse_report(DeviceModel::WootingTwoHE, &buf, 777);
    assert_eq!(readings.len(), 2);
    assert_eq!(readings[0].code, 0x0104);
    assert_eq!(readings[0].value, 255);
    assert_eq!(readings[0].ts_us, 777);
    assert_eq!(readings[1].code, 0x0016);
    assert_eq!(readings[1].value, UNIT_FULL);
    assert_eq!(readings[1].ts_us, 777);
}

#[test]
fn parse_all_zero_report_yields_empty_batch() {
    let buf = vec![0u8; REPORT_BYTES];
    let readings = parse_report(DeviceModel::WootingTwoHE, &buf, 1);
    assert!(readings.is_empty());
}

#[test]
fn parse_legacy_model_scales_with_gain() {
    let buf = buffer_with(&[(0x00, 0x1e, 100), (0x00, 0x30, 250)]);
    let readings = parse_report(DeviceModel::WootingOne, &buf, 5);
    assert_eq!(readings.len(), 2);
    assert_eq!(readings[0].value, 600);
    // 6 * 250 = 1500 clamps to full travel
    assert_eq!(readings[1].value, UNIT_FULL);
}

#[test]
fn parse_full_report_of_sixteen_groups() {
    let groups: Vec<(u8, u8, u8)> = (0u8..16u8).map(|i| (0x01, i + 1, 10 * i)).collect();
    let buf = buffer_with(&groups);
    let readings = parse_report(DeviceModel::WootingLekker, &buf, 0);
    assert_eq!(readings.len(), 16);
    for (i, r) in readings.iter().enumerate() {
        assert_eq!(r.code, 0x0100 | (i as u16 + 1));
        assert_eq!(r.value, 50 * i as u16);
    }
}

#[test]
fn session_failed_read_is_a_disconnect() {
    let r = session_step(DeviceModel::WootingTwoHE, &ReadOutcome::Failed, 9);
    assert_eq!(r, Err(ReadErrors::DeviceDisconnected));
}

#[test]
fn session_timeout_is_no_data() {
    let r = session_step(DeviceModel::WootingTwoHE, &ReadOutcome::TimedOut, 9);
    assert_eq!(r, Ok(None));
}

#[test]
fn session_report_parses_whole_batch() {
    let buf = buffer_with(&[(0x01, 0x04, 51)]);
    let r = session_step(DeviceModel::WootingTwoHE, &ReadOutcome::Report(buf), 42);
    let batch = r.unwrap().unwrap();
    assert_eq!(batch.len(), 1);
    assert_eq!(batch[0].code, 0x0104);
    assert_eq!(batch[0].value, 255);
    assert_eq!(batch[0].ts_us, 42);
}

#[test]
fn session_empty_report_still_flows_out() {
    // an all-zero report is an empty batch, not a timeout: downstream gap
    // synthesis must see it to release held keys
    let buf = vec![0u8; REPORT_BYTES];
    let r = session_step(DeviceModel::WootingTwoHE, &ReadOutcome::Report(buf), 42);
    let batch = r.unwrap().unwrap();
    assert!(batch.is_empty());
}
