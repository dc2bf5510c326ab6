use wooting_shouting::catalog::DeviceModel;
use wooting_shouting::catalog::HidDeviceInfo;
use wooting_shouting::catalog::UNIT_FULL;
use wooting_shouting::catalog::device_impls;
use wooting_shouting::catalog::find_match;

fn info(vendor_id: u16, product_id: u16, usage_page: u16) -> HidDeviceInfo {
    HidDeviceInfo {
        vendor_id,
        product_id,
        usage_page,
        serial_number: Some(String::from("A02B1830W020H00344")),
        manufacturer_string: Some(String::from("Wooting")),
        product_string: Some(String::from("Wooting Two HE")),
    }
}

#[test]
fn mode_variant_low_nibble_matches() {
    // a mode-bearing identity accepts any product id that differs from its
    // own only in the low nibble
    let m = DeviceModel::WootingTwoHE;
    assert!(m.matches(&info(0x31e3, 0x1220, 0xFF54)));
    assert!(m.matches(&info(0x31e3, 0x1225, 0xFF54)));
    assert!(m.matches(&info(0x31e3, 0x122F, 0xFF54)));
    assert!(!m.matches(&info(0x31e3, 0x1230, 0xFF54)));
}

#[test]
fn vendor_mismatch_never_matches() {
    let m = DeviceModel::WootingTwoHE;
    assert!(!m.matches(&info(0x31e4, 0x1220, 0xFF54)));
    let legacy = DeviceModel::WootingOne;
    assert!(!legacy.matches(&info(0x31e3, 0xFF01, 0xFF54)));
}

#[test]
fn legacy_model_needs_exact_pid() {
    let m = DeviceModel::WootingOne;
    assert!(m.matches(&info(0x03EB, 0xFF01, 0xFF54)));
    assert!(!m.matches(&info(0x03EB, 0xFF02, 0xFF54)));
    assert!(!m.matches(&info(0x03EB, 0xFF01, 0xFF53)));
}

#[test]
fn catalog_lists_every_model_once() {
    let impls = device_impls();
    assert_eq!(impls.len(), 9);
    assert_eq!(impls[0], DeviceModel::WootingOne);
    assert_eq!(impls[8], DeviceModel::Wooting60HEARM);
}

#[test]
fn find_match_picks_first_matching_model() {
    assert_eq!(
        find_match(&info(0x31e3, 0x1205, 0xFF54)),
        Some(DeviceModel::WootingTwoV2)
    );
    assert_eq!(
        find_match(&info(0x03EB, 0xFF02, 0xFF54)),
        Some(DeviceModel::WootingTwo)
    );
    assert_eq!(find_match(&info(0x1234, 0x1205, 0xFF54)), None);
}

#[test]
fn default_scaling_is_five_per_raw_unit() {
    let m = DeviceModel::WootingTwoHE;
    assert_eq!(m.analog_value_to_units(0), 0);
    assert_eq!(m.analog_value_to_units(51), 255);
    assert_eq!(m.analog_value_to_units(255), UNIT_FULL);
}

#[test]
fn legacy_scaling_applies_gain_and_clamps() {
    let m = DeviceModel::WootingOne;
    assert_eq!(m.analog_value_to_units(100), 600);
    // 6 * 213 = 1278 exceeds full travel and is clamped
    assert_eq!(m.analog_value_to_units(213), UNIT_FULL);
    assert_eq!(m.analog_value_to_units(255), UNIT_FULL);
}
