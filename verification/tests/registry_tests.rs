use wooting_shouting::catalog::HidDeviceInfo;
use wooting_shouting::registry::DeviceRegistry;
use wooting_shouting::registry::DeviceType;
use wooting_shouting::registry::get_device_id;

fn wooting_two_he(serial: Option<&str>) -> HidDeviceInfo {
    HidDeviceInfo {
        vendor_id: 0x31e3,
        product_id: 0x1221,
        usage_page: 0xFF54,
        serial_number: serial.map(String::from),
        manufacturer_string: Some(String::from("Wooting")),
        product_string: Some(String::from("Wooting Two HE")),
    }
}

fn unrelated_device() -> HidDeviceInfo {
    HidDeviceInfo {
        vendor_id: 0x046d,
        product_id: 0xc52b,
        usage_page: 0x0001,
        serial_number: None,
        manufacturer_string: Some(String::from("Logitech")),
        product_string: Some(String::from("USB Receiver")),
    }
}

#[test]
fn discovery_registers_a_matching_device_once() {
    let mut reg = DeviceRegistry::new();
    let found = vec![wooting_two_he(Some("S1")), unrelated_device()];
    let added = reg.discover(&found);
    assert_eq!(added.len(), 1);
    assert_eq!(added[0].vendor_id, 0x31e3);
    assert_eq!(added[0].product_id, 0x1221);
    assert_eq!(added[0].manufacturer_name, "Wooting");
    assert_eq!(added[0].device_name, "Wooting Two HE");
    assert_eq!(added[0].device_type, DeviceType::Keyboard);
    assert_eq!(added[0].device_id, get_device_id(&wooting_two_he(Some("S1"))));
    assert_eq!(reg.device_count(), 1);
    assert!(reg.is_tracked(added[0].device_id));

    // a second pass over the same device list adds nothing
    let added_again = reg.discover(&found);
    assert!(added_again.is_empty());
    assert_eq!(reg.device_count(), 1);
}

#[test]
fn duplicate_enumeration_in_one_pass_registers_once() {
    let mut reg = DeviceRegistry::new();
    let found = vec![wooting_two_he(Some("S1")), wooting_two_he(Some("S1"))];
    let added = reg.discover(&found);
    assert_eq!(added.len(), 1);
    assert_eq!(reg.device_count(), 1);
}

#[test]
fn two_units_of_one_model_are_tracked_separately() {
    let mut reg = DeviceRegistry::new();
    let found = vec![wooting_two_he(Some("S1")), wooting_two_he(Some("S2"))];
    let added = reg.discover(&found);
    assert_eq!(added.len(), 2);
    assert_eq!(reg.device_count(), 2);
}

#[test]
fn disconnect_then_reconnect_fires_one_of_each_callback() {
    let mut reg = DeviceRegistry::new();
    let found = vec![wooting_two_he(Some("S1"))];
    let added = reg.discover(&found);
    assert_eq!(added.len(), 1);
    let id = added[0].device_id;

    // the unit's polling loop reported a failure; the next tick's
    // disconnect pass retires it exactly once
    let removed = reg.sweep_disconnected(&vec![id]);
    assert_eq!(removed.len(), 1);
    assert_eq!(removed[0].device_id, id);
    assert!(!reg.is_tracked(id));
    assert_eq!(reg.device_count(), 0);

    // sweeping again retires nothing
    let removed_again = reg.sweep_disconnected(&vec![id]);
    assert!(removed_again.is_empty());

    // the re-enumerated unit is registered exactly once, afresh
    let readded = reg.discover(&found);
    assert_eq!(readded.len(), 1);
    assert_eq!(readded[0].device_id, id);
    assert!(reg.is_tracked(id));
}

#[test]
fn the_device_id_is_stable_and_defaults_without_serial() {
    let a = get_device_id(&wooting_two_he(Some("S1")));
    let b = get_device_id(&wooting_two_he(Some("S1")));
    assert_eq!(a, b);
    let c = get_device_id(&wooting_two_he(None));
    let d = get_device_id(&wooting_two_he(None));
    assert_eq!(c, d);
}

#[test]
fn device_info_lists_every_tracked_unit() {
    let mut reg = DeviceRegistry::new();
    let found = vec![wooting_two_he(Some("S1")), wooting_two_he(Some("S2"))];
    reg.discover(&found);
    let infos = reg.device_info();
    assert_eq!(infos.len(), 2);
    let id1 = get_device_id(&wooting_two_he(Some("S1")));
    let id2 = get_device_id(&wooting_two_he(Some("S2")));
    assert!(infos.iter().any(|d| d.device_id == id1));
    assert!(infos.iter().any(|d| d.device_id == id2));
}

#[test]
fn a_device_without_strings_gets_placeholders() {
    let mut reg = DeviceRegistry::new();
    let mut dev = wooting_two_he(Some("S9"));
    dev.manufacturer_string = None;
    dev.product_string = None;
    let added = reg.discover(&vec![dev]);
    assert_eq!(added.len(), 1);
    assert_eq!(added[0].manufacturer_name, "ERR COULD NOT BE FOUND");
    assert_eq!(added[0].device_name, "ERR COULD NOT BE FOUND");
}
