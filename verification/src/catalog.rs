//! Static catalog of known keyboard models: hardware identities, matching
//! against enumerated HID devices, and per-model analog-value scaling.

use vstd::prelude::*;

verus! {

/// Fixed-point units that stand for a full analog travel of 1.0.
///
/// The hardware reports one byte per key. The default scaling divides it by
/// 255 and the legacy scaling applies a 1.2 gain first; with units of
/// 1/1275 (= 5 * 255) both are exact: raw/255 = 5*raw/1275 and
/// raw*1.2/255 = 6*raw/1275.
pub const UNIT_FULL: u16 = 1275;

/// Product ids of a mode-bearing firmware family differ only in the low
/// nibble; masking it off yields the family's canonical product id.
pub const MODE_MASK: u16 = 0xFFF0;

/// The vendor id shared by the mode-bearing models.
pub const WOOTING_VID: u16 = 0x31e3;

/// One known keyboard model; the set is fixed and small.
#[derive(Clone, Copy, PartialEq, Eq, Structural, Debug)]
pub enum DeviceModel {
    WootingOne,
    WootingTwo,
    WootingOneV2,
    WootingTwoV2,
    WootingLekker,
    WootingTwoHE,
    WootingTwoHEARM,
    Wooting60HE,
    Wooting60HEARM,
}

/// The information needed to find a device and its analog interface.
#[derive(Clone, Copy, PartialEq, Eq, Structural, Debug)]
pub struct DeviceHardwareID {
    pub vid: u16,
    pub pid: u16,
    pub usage_page: u16,
    pub has_modes: bool,
}

/// What the library reads of one enumerated HID device; the process fills it
/// from the platform's device list at the boundary.
#[derive(Debug)]
pub struct HidDeviceInfo {
    pub vendor_id: u16,
    pub product_id: u16,
    pub usage_page: u16,
    pub serial_number: Option<String>,
    pub manufacturer_string: Option<String>,
    pub product_string: Option<String>,
}

/// The spec-level image of an enumerated HID device.
pub struct HidInfoV {
    pub vendor_id: u16,
    pub product_id: u16,
    pub usage_page: u16,
    pub serial_number: Option<Seq<char>>,
    pub manufacturer_string: Option<Seq<char>>,
    pub product_string: Option<Seq<char>>,
}

impl View for HidDeviceInfo {
    type V = HidInfoV;

    open spec fn view(&self) -> HidInfoV {
        HidInfoV {
            vendor_id: self.vendor_id,
            product_id: self.product_id,
            usage_page: self.usage_page,
            serial_number: match self.serial_number {
                Option::Some(s) => Option::Some(s@),
                Option::None => Option::None,
            },
            manufacturer_string: match self.manufacturer_string {
                Option::Some(s) => Option::Some(s@),
                Option::None => Option::None,
            },
            product_string: match self.product_string {
                Option::Some(s) => Option::Some(s@),
                Option::None => Option::None,
            },
        }
    }
}

/// The hardware identity of each model.
pub open spec fn spec_hardware_id(m: DeviceModel) -> DeviceHardwareID {
    match m {
        DeviceModel::WootingOne => DeviceHardwareID {
            vid: 0x03EB,
            pid: 0xFF01,
            usage_page: 0xFF54,
            has_modes: false,
        },
        DeviceModel::WootingTwo => DeviceHardwareID {
            vid: 0x03EB,
            pid: 0xFF02,
            usage_page: 0xFF54,
            has_modes: false,
        },
        DeviceModel::WootingOneV2 => DeviceHardwareID {
            vid: WOOTING_VID,
            pid: 0x1100,
            usage_page: 0xFF54,
            has_modes: true,
        },
        DeviceModel::WootingTwoV2 => DeviceHardwareID {
            vid: WOOTING_VID,
            pid: 0x1200,
            usage_page: 0xFF54,
            has_modes: true,
        },
        DeviceModel::WootingLekker => DeviceHardwareID {
            vid: WOOTING_VID,
            pid: 0x1210,
            usage_page: 0xFF54,
            has_modes: true,
        },
        DeviceModel::WootingTwoHE => DeviceHardwareID {
            vid: WOOTING_VID,
            pid: 0x1220,
            usage_page: 0xFF54,
            has_modes: true,
        },
        DeviceModel::WootingTwoHEARM => DeviceHardwareID {
            vid: WOOTING_VID,
            pid: 0x1230,
            usage_page: 0xFF54,
            has_modes: true,
        },
        DeviceModel::Wooting60HE => DeviceHardwareID {
            vid: WOOTING_VID,
            pid: 0x1300,
            usage_page: 0xFF54,
            has_modes: true,
        },
        DeviceModel::Wooting60HEARM => DeviceHardwareID {
            vid: WOOTING_VID,
            pid: 0x1310,
            usage_page: 0xFF54,
            has_modes: true,
        },
    }
}

/// The product id a device is matched under: mode-bearing families mask off
/// the low nibble, so every mode variant matches one catalog identity.
pub open spec fn spec_effective_pid(hid: DeviceHardwareID, device_pid: u16) -> u16 {
    if hid.has_modes {
        device_pid & MODE_MASK
    } else {
        device_pid
    }
}

/// Whether a device with the given ids belongs to the identity `hid`.
pub open spec fn spec_matches(hid: DeviceHardwareID, vid: u16, pid: u16, usage_page: u16) -> bool {
    &&& spec_effective_pid(hid, pid) == hid.pid
    &&& vid == hid.vid
    &&& usage_page == hid.usage_page
}

/// The scaled analog value of one raw report byte, in units of 1/1275:
/// legacy models apply a 1.2 gain before clamping at full travel, the rest
/// divide by 255 (which never exceeds full travel).
pub open spec fn spec_scale(m: DeviceModel, raw: u8) -> u16 {
    if spec_has_gain(m) {
        if 6 * raw > UNIT_FULL {
            UNIT_FULL
        } else {
            (6 * raw) as u16
        }
    } else {
        (5 * raw) as u16
    }
}

/// The legacy models under-report full travel and compensate with a gain.
pub open spec fn spec_has_gain(m: DeviceModel) -> bool {
    m == DeviceModel::WootingOne || m == DeviceModel::WootingTwo
}

/// The catalog, in the order devices are matched against it.
pub open spec fn spec_catalog() -> Seq<DeviceModel> {
    seq![
        DeviceModel::WootingOne,
        DeviceModel::WootingTwo,
        DeviceModel::WootingOneV2,
        DeviceModel::WootingTwoV2,
        DeviceModel::WootingLekker,
        DeviceModel::WootingTwoHE,
        DeviceModel::WootingTwoHEARM,
        DeviceModel::Wooting60HE,
        DeviceModel::Wooting60HEARM,
    ]
}

/// The first catalog entry from `s` that matches the given ids.
pub open spec fn spec_first_match(s: Seq<DeviceModel>, vid: u16, pid: u16, usage_page: u16) -> Option<
    DeviceModel,
>
    decreases s.len(),
{
    if s.len() == 0 {
        None
    } else if spec_matches(spec_hardware_id(s[0]), vid, pid, usage_page) {
        Some(s[0])
    } else {
        spec_first_match(s.drop_first(), vid, pid, usage_page)
    }
}

impl DeviceModel {
    /// The hardware identity used to find this model's analog interface.
    pub fn device_hardware_id(&self) -> (r: DeviceHardwareID)
        ensures
            r == spec_hardware_id(*self),
    {
        match self {
            DeviceModel::WootingOne => DeviceHardwareID {
                vid: 0x03EB,
                pid: 0xFF01,
                usage_page: 0xFF54,
                has_modes: false,
            },
            DeviceModel::WootingTwo => DeviceHardwareID {
                vid: 0x03EB,
                pid: 0xFF02,
                usage_page: 0xFF54,
                has_modes: false,
            },
            DeviceModel::WootingOneV2 => DeviceHardwareID {
                vid: WOOTING_VID,
                pid: 0x1100,
                usage_page: 0xFF54,
                has_modes: true,
            },
            DeviceModel::WootingTwoV2 => DeviceHardwareID {
                vid: WOOTING_VID,
                pid: 0x1200,
                usage_page: 0xFF54,
                has_modes: true,
            },
            DeviceModel::WootingLekker => DeviceHardwareID {
                vid: WOOTING_VID,
                pid: 0x1210,
                usage_page: 0xFF54,
                has_modes: true,
            },
            DeviceModel::WootingTwoHE => DeviceHardwareID {
                vid: WOOTING_VID,
                pid: 0x1220,
                usage_page: 0xFF54,
                has_modes: true,
            },
            DeviceModel::WootingTwoHEARM => DeviceHardwareID {
                vid: WOOTING_VID,
                pid: 0x1230,
                usage_page: 0xFF54,
                has_modes: true,
            },
            DeviceModel::Wooting60HE => DeviceHardwareID {
                vid: WOOTING_VID,
                pid: 0x1300,
                usage_page: 0xFF54,
                has_modes: true,
            },
            DeviceModel::Wooting60HEARM => DeviceHardwareID {
                vid: WOOTING_VID,
                pid: 0x1310,
                usage_page: 0xFF54,
                has_modes: true,
            },
        }
    }

    /// Whether the enumerated device `device` is one of this model.
    pub fn matches(&self, device: &HidDeviceInfo) -> (r: bool)
        ensures
            r == spec_matches(
                spec_hardware_id(*self),
                device.vendor_id,
                device.product_id,
                device.usage_page,
            ),
    {
        let hid = self.device_hardware_id();
        let pid = if hid.has_modes {
            device.product_id & MODE_MASK
        } else {
            device.product_id
        };
        pid == hid.pid && device.vendor_id == hid.vid && device.usage_page == hid.usage_page
    }

    /// The scaled analog value of one raw report byte, in units of 1/1275.
    pub fn analog_value_to_units(&self, raw: u8) -> (v: u16)
        ensures
            v == spec_scale(*self, raw),
            v <= UNIT_FULL,
    {
        if self.has_gain() {
            let scaled: u16 = 6 * (raw as u16);
            if scaled > UNIT_FULL {
                UNIT_FULL
            } else {
                scaled
            }
        } else {
            5 * (raw as u16)
        }
    }

    /// Whether this model applies the legacy 1.2 gain.
    pub fn has_gain(&self) -> (r: bool)
        ensures
            r == spec_has_gain(*self),
    {
        match self {
            DeviceModel::WootingOne => true,
            DeviceModel::WootingTwo => true,
            _ => false,
        }
    }
}

/// The catalog as a list, built once at startup and shared read-only.
pub fn device_impls() -> (r: Vec<DeviceModel>)
    ensures
        r@ == spec_catalog(),
{
    let mut v: Vec<DeviceModel> = Vec::new();
    v.push(DeviceModel::WootingOne);
    v.push(DeviceModel::WootingTwo);
    v.push(DeviceModel::WootingOneV2);
    v.push(DeviceModel::WootingTwoV2);
    v.push(DeviceModel::WootingLekker);
    v.push(DeviceModel::WootingTwoHE);
    v.push(DeviceModel::WootingTwoHEARM);
    v.push(DeviceModel::Wooting60HE);
    v.push(DeviceModel::Wooting60HEARM);
    proof {
        assert(v@ =~= spec_catalog());
    }
    v
}

/// The first catalog model that matches the enumerated device, if any.
pub fn find_match(device: &HidDeviceInfo) -> (r: Option<DeviceModel>)
    ensures
        r == spec_first_match(
            spec_catalog(),
            device.vendor_id,
            device.product_id,
            device.usage_page,
        ),
{
    let impls = device_impls();
    let mut i: usize = 0;
    proof {
        assert(spec_catalog().skip(0) =~= spec_catalog());
    }
    while i < impls.len()
        invariant
            i <= impls.len(),
            impls@ == spec_catalog(),
            spec_first_match(spec_catalog(), device.vendor_id, device.product_id, device.usage_page)
                == spec_first_match(
                spec_catalog().skip(i as int),
                device.vendor_id,
                device.product_id,
                device.usage_page,
            ),
        decreases impls.len() - i,
    {
        let m = impls[i];
        if m.matches(device) {
            proof {
                assert(spec_catalog().skip(i as int)[0] == m);
            }
            return Some(m);
        }
        proof {
            assert(spec_catalog().skip(i as int).drop_first() =~= spec_catalog().skip(i + 1));
        }
        i = i + 1;
    }
    proof {
        assert(spec_catalog().skip(impls@.len() as int).len() == 0);
    }
    None
}

/// For a mode-bearing identity, any device whose product id differs from the
/// identity's only in the low nibble, and whose vendor id and usage page
/// agree, is matched.
pub proof fn lemma_mode_variant_matches(m: DeviceModel, pid: u16)
    requires
        spec_hardware_id(m).has_modes,
        pid & MODE_MASK == spec_hardware_id(m).pid & MODE_MASK,
    ensures
        spec_matches(spec_hardware_id(m), spec_hardware_id(m).vid, pid, spec_hardware_id(m).usage_page),
{
    let p = spec_hardware_id(m).pid;
    assert(p & 0xFFF0u16 == p) by (bit_vector)
        requires
            p == 0x1100u16 || p == 0x1200u16 || p == 0x1210u16 || p == 0x1220u16 || p
                == 0x1230u16 || p == 0x1300u16 || p == 0x1310u16,
    ;
}

/// A device whose vendor id differs from the identity's never matches,
/// whatever its product id and usage page.
pub proof fn lemma_vendor_mismatch_never_matches(m: DeviceModel, vid: u16, pid: u16, usage_page: u16)
    requires
        vid != spec_hardware_id(m).vid,
    ensures
        !spec_matches(spec_hardware_id(m), vid, pid, usage_page),
{
}

} // verus!
