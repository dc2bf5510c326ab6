//! The tracked-device registry: which physical units are connected, keyed by
//! their stable 64-bit device id.
//!
//! The registry holds the pure bookkeeping of the device manager's periodic
//! tick: the disconnect pass removes every unit whose polling loop reported a
//! failure, and the discovery pass adds every enumerated device that matches
//! the catalog and is not yet tracked. The caller raises one callback per
//! returned descriptor.

use vstd::prelude::*;

use std::collections::HashMap;

use crate::catalog::HidDeviceInfo;
use crate::catalog::HidInfoV;
use crate::catalog::find_match;
use crate::catalog::spec_catalog;
use crate::catalog::spec_first_match;

verus! {

broadcast use vstd::std_specs::hash::group_hash_axioms;

/// The kind of input device a descriptor stands for.
#[derive(Clone, Copy, PartialEq, Eq, Structural, Debug)]
pub enum DeviceType {
    Keyboard,
    Keypad,
    Other,
}

/// The descriptor handed to device-event callbacks: display data and the
/// stable id of one connected unit.
#[derive(Debug)]
pub struct DeviceInfo {
    pub vendor_id: u16,
    pub product_id: u16,
    pub manufacturer_name: String,
    pub device_name: String,
    pub device_id: u64,
    pub device_type: DeviceType,
}

/// The spec-level image of a descriptor.
pub struct DeviceInfoV {
    pub vendor_id: u16,
    pub product_id: u16,
    pub manufacturer_name: Seq<char>,
    pub device_name: Seq<char>,
    pub device_id: u64,
    pub device_type: DeviceType,
}

impl View for DeviceInfo {
    type V = DeviceInfoV;

    open spec fn view(&self) -> DeviceInfoV {
        DeviceInfoV {
            vendor_id: self.vendor_id,
            product_id: self.product_id,
            manufacturer_name: self.manufacturer_name@,
            device_name: self.device_name@,
            device_id: self.device_id,
            device_type: self.device_type,
        }
    }
}

impl Clone for DeviceInfo {
    fn clone(&self) -> (r: Self)
        ensures
            r@ == self@,
    {
        DeviceInfo {
            vendor_id: self.vendor_id,
            product_id: self.product_id,
            manufacturer_name: self.manufacturer_name.clone(),
            device_name: self.device_name.clone(),
            device_id: self.device_id,
            device_type: self.device_type,
        }
    }
}

/// The stable id of a physical unit, as a function of its serial number and
/// ids alone; two units of one model get distinct serials and so distinct
/// ids.
pub uninterp spec fn dev_id_of(serial: Seq<char>, vendor_id: u16, product_id: u16) -> u64;

/// Relies on wooting_analog_plugin_dev::generate_device_id: it feeds the two
/// ids and the serial bytes to std's DefaultHasher, created with
/// DefaultHasher::new, so the result is a function of the arguments alone.
#[verifier::external_body]
fn device_id_hash(serial_number: &str, vendor_id: u16, product_id: u16) -> (r: u64)
    ensures
        r == dev_id_of(serial_number@, vendor_id, product_id),
{
    wooting_analog_plugin_dev::generate_device_id(serial_number, vendor_id, product_id)
}

/// The serial number a device is identified by; a device that reports none
/// is identified by a fixed placeholder.
pub open spec fn spec_serial_of(d: HidInfoV) -> Seq<char> {
    match d.serial_number {
        Option::Some(s) => s,
        Option::None => "NO SERIAL"@,
    }
}

/// The stable id of one enumerated device.
pub open spec fn spec_device_id(d: HidInfoV) -> u64 {
    dev_id_of(spec_serial_of(d), d.vendor_id, d.product_id)
}

/// A display string of the device, or a fixed marker where the hardware
/// reports none.
pub open spec fn spec_name_of(s: Option<Seq<char>>) -> Seq<char> {
    match s {
        Option::Some(n) => n,
        Option::None => "ERR COULD NOT BE FOUND"@,
    }
}

/// The descriptor a tracked entry is registered under.
pub open spec fn spec_descriptor(d: HidInfoV) -> DeviceInfoV {
    DeviceInfoV {
        vendor_id: d.vendor_id,
        product_id: d.product_id,
        manufacturer_name: spec_name_of(d.manufacturer_string),
        device_name: spec_name_of(d.product_string),
        device_id: spec_device_id(d),
        device_type: DeviceType::Keyboard,
    }
}

/// Whether some catalog model claims the enumerated device.
pub open spec fn spec_model_matches(d: HidInfoV) -> bool {
    spec_first_match(spec_catalog(), d.vendor_id, d.product_id, d.usage_page) is Some
}

/// One discovery step: a matching, not-yet-tracked device is registered.
pub open spec fn spec_discover_one(m: Map<u64, DeviceInfoV>, d: HidInfoV) -> Map<u64, DeviceInfoV> {
    if spec_model_matches(d) && !m.contains_key(spec_device_id(d)) {
        m.insert(spec_device_id(d), spec_descriptor(d))
    } else {
        m
    }
}

/// The tracked map after one discovery pass over `cands`, in order.
pub open spec fn spec_discover_map(m: Map<u64, DeviceInfoV>, cands: Seq<HidInfoV>) -> Map<
    u64,
    DeviceInfoV,
>
    decreases cands.len(),
{
    if cands.len() == 0 {
        m
    } else {
        spec_discover_map(spec_discover_one(m, cands[0]), cands.drop_first())
    }
}

/// The descriptors newly registered by one discovery pass, in order: each
/// candidate that matches the catalog and is untracked at its turn.
pub open spec fn spec_discover_added(m: Map<u64, DeviceInfoV>, cands: Seq<HidInfoV>) -> Seq<
    DeviceInfoV,
>
    decreases cands.len(),
{
    if cands.len() == 0 {
        Seq::empty()
    } else {
        let head: Seq<DeviceInfoV> = if spec_model_matches(cands[0]) && !m.contains_key(
            spec_device_id(cands[0]),
        ) {
            seq![spec_descriptor(cands[0])]
        } else {
            Seq::empty()
        };
        head + spec_discover_added(spec_discover_one(m, cands[0]), cands.drop_first())
    }
}

/// The tracked map after the disconnect pass removed the listed ids.
pub open spec fn spec_sweep_map(m: Map<u64, DeviceInfoV>, ids: Seq<u64>) -> Map<u64, DeviceInfoV>
    decreases ids.len(),
{
    if ids.len() == 0 {
        m
    } else {
        spec_sweep_map(m.remove(ids[0]), ids.drop_first())
    }
}

/// The descriptors the disconnect pass retired, in order: one per listed id
/// that was tracked at its turn.
pub open spec fn spec_sweep_removed(m: Map<u64, DeviceInfoV>, ids: Seq<u64>) -> Seq<DeviceInfoV>
    decreases ids.len(),
{
    if ids.len() == 0 {
        Seq::empty()
    } else {
        let head: Seq<DeviceInfoV> = if m.contains_key(ids[0]) {
            seq![m[ids[0]]]
        } else {
            Seq::empty()
        };
        head + spec_sweep_removed(m.remove(ids[0]), ids.drop_first())
    }
}

/// A well-formed tracked map registers each descriptor under its own id.
pub open spec fn spec_wf_map(m: Map<u64, DeviceInfoV>) -> bool {
    forall|k: u64| m.contains_key(k) ==> (#[trigger] m[k]).device_id == k
}

/// Whether a descriptor carries the given device id.
pub open spec fn has_id(id: u64) -> spec_fn(DeviceInfoV) -> bool {
    |d: DeviceInfoV| d.device_id == id
}

/// How many descriptors in `s` carry the device id `id`.
pub open spec fn spec_count_id(s: Seq<DeviceInfoV>, id: u64) -> nat {
    s.filter(has_id(id)).len()
}

proof fn lemma_count_empty(id: u64)
    ensures
        spec_count_id(Seq::empty(), id) == 0,
{
    reveal(Seq::filter);
}

proof fn lemma_count_single(d: DeviceInfoV, id: u64)
    ensures
        spec_count_id(seq![d], id) == if d.device_id == id {
            1nat
        } else {
            0nat
        },
{
    reveal_with_fuel(Seq::filter, 2);
    assert(seq![d].drop_last() =~= Seq::<DeviceInfoV>::empty());
    assert(seq![d].last() == d);
    assert(Seq::<DeviceInfoV>::empty().filter(has_id(id)) =~= Seq::<DeviceInfoV>::empty());
}

proof fn lemma_count_concat(a: Seq<DeviceInfoV>, b: Seq<DeviceInfoV>, id: u64)
    ensures
        spec_count_id(a + b, id) == spec_count_id(a, id) + spec_count_id(b, id),
{
    broadcast use vstd::seq_lib::group_seq_lib_default;

    assert((a + b).filter(has_id(id)) == a.filter(has_id(id)) + b.filter(has_id(id)));
}

/// A removed key leaves a map well-formed.
proof fn lemma_wf_remove(m: Map<u64, DeviceInfoV>, k: u64)
    requires
        spec_wf_map(m),
    ensures
        spec_wf_map(m.remove(k)),
{
}

/// A sweep over a well-formed map that does not track `id` retires no
/// descriptor of `id`, and leaves `id` untracked.
pub proof fn lemma_sweep_untracked(m: Map<u64, DeviceInfoV>, ids: Seq<u64>, id: u64)
    requires
        spec_wf_map(m),
        !m.contains_key(id),
    ensures
        !spec_sweep_map(m, ids).contains_key(id),
        spec_count_id(spec_sweep_removed(m, ids), id) == 0,
    decreases ids.len(),
{
    if ids.len() == 0 {
        lemma_count_empty(id);
    } else {
        let head = ids[0];
        let m1 = m.remove(head);
        lemma_wf_remove(m, head);
        lemma_sweep_untracked(m1, ids.drop_first(), id);
        let head_part: Seq<DeviceInfoV> = if m.contains_key(head) {
            seq![m[head]]
        } else {
            Seq::empty()
        };
        if m.contains_key(head) {
            lemma_count_single(m[head], id);
        } else {
            lemma_count_empty(id);
        }
        lemma_count_concat(head_part, spec_sweep_removed(m1, ids.drop_first()), id);
    }
}

/// The disconnect pass retires a flagged, tracked id exactly once: one
/// descriptor of that id comes back, and the id is no longer tracked.
pub proof fn lemma_sweep_fires_once(m: Map<u64, DeviceInfoV>, ids: Seq<u64>, id: u64)
    requires
        spec_wf_map(m),
        ids.no_duplicates(),
        ids.contains(id),
        m.contains_key(id),
    ensures
        !spec_sweep_map(m, ids).contains_key(id),
        spec_count_id(spec_sweep_removed(m, ids), id) == 1,
    decreases ids.len(),
{
    let head = ids[0];
    let rest = ids.drop_first();
    let m1 = m.remove(head);
    lemma_wf_remove(m, head);
    assert(rest.no_duplicates()) by {
        assert(forall|i: int, j: int|
            0 <= i < j < rest.len() ==> rest[i] == ids[i + 1] && rest[j] == ids[j + 1]);
    }
    if head == id {
        assert(!rest.contains(id)) by {
            if rest.contains(id) {
                let k = choose|k: int| 0 <= k < rest.len() && rest[k] == id;
                assert(ids[k + 1] == id && ids[0] == id);
            }
        }
        lemma_sweep_untracked(m1, rest, id);
        lemma_count_single(m[id], id);
        lemma_count_concat(seq![m[id]], spec_sweep_removed(m1, rest), id);
    } else {
        assert(rest.contains(id)) by {
            let k = choose|k: int| 0 <= k < ids.len() && ids[k] == id;
            assert(rest[k - 1] == id);
        }
        lemma_sweep_fires_once(m1, rest, id);
        let head_part: Seq<DeviceInfoV> = if m.contains_key(head) {
            seq![m[head]]
        } else {
            Seq::empty()
        };
        if m.contains_key(head) {
            lemma_count_single(m[head], id);
        } else {
            lemma_count_empty(id);
        }
        lemma_count_concat(head_part, spec_sweep_removed(m1, rest), id);
    }
}

/// Discovery never re-adds a unit that is still tracked: the candidate is
/// skipped and the map stands.
pub proof fn lemma_discover_no_readd(m: Map<u64, DeviceInfoV>, d: HidInfoV)
    requires
        m.contains_key(spec_device_id(d)),
    ensures
        spec_discover_added(m, seq![d]) == Seq::<DeviceInfoV>::empty(),
        spec_discover_map(m, seq![d]) == m,
{
    assert(seq![d].drop_first() =~= Seq::<HidInfoV>::empty());
    assert(spec_discover_one(m, d) == m);
    assert(spec_discover_added(m, Seq::<HidInfoV>::empty()) == Seq::<DeviceInfoV>::empty());
    assert(spec_discover_map(m, Seq::<HidInfoV>::empty()) == m);
    assert(Seq::<DeviceInfoV>::empty() + Seq::<DeviceInfoV>::empty() =~= Seq::<
        DeviceInfoV,
    >::empty());
}

/// One full manager tick recovers a lost unit: the disconnect pass retires
/// its flagged id exactly once, and the re-enumerated unit, matching the
/// catalog again, is then registered exactly once, as a fresh entry under
/// the same stable id.
pub proof fn lemma_disconnect_reconnect_tick(m: Map<u64, DeviceInfoV>, ids: Seq<u64>, d: HidInfoV)
    requires
        spec_wf_map(m),
        ids.no_duplicates(),
        ids.contains(spec_device_id(d)),
        m.contains_key(spec_device_id(d)),
        spec_model_matches(d),
    ensures
        spec_count_id(spec_sweep_removed(m, ids), spec_device_id(d)) == 1,
        !spec_sweep_map(m, ids).contains_key(spec_device_id(d)),
        spec_discover_added(spec_sweep_map(m, ids), seq![d]) == seq![spec_descriptor(d)],
        spec_discover_map(spec_sweep_map(m, ids), seq![d]) == spec_sweep_map(m, ids).insert(
            spec_device_id(d),
            spec_descriptor(d),
        ),
{
    let id = spec_device_id(d);
    lemma_sweep_fires_once(m, ids, id);
    let m1 = spec_sweep_map(m, ids);
    let m2 = spec_discover_one(m1, d);
    assert(m2 == m1.insert(id, spec_descriptor(d)));
    assert(seq![d].drop_first() =~= Seq::<HidInfoV>::empty());
    assert(spec_discover_added(m2, Seq::<HidInfoV>::empty()) == Seq::<DeviceInfoV>::empty());
    assert(spec_discover_map(m2, Seq::<HidInfoV>::empty()) == m2);
    assert(seq![spec_descriptor(d)] + Seq::<DeviceInfoV>::empty() =~= seq![spec_descriptor(d)]);
}

/// The tracked-device map of the device manager.
pub struct DeviceRegistry {
    devices: HashMap<u64, DeviceInfo>,
}

impl DeviceRegistry {
    /// The ids the registry tracks, each with the descriptor it was
    /// registered under.
    pub closed spec fn entries(self) -> Map<u64, DeviceInfoV> {
        self.devices@.map_values(|d: DeviceInfo| d@)
    }

    /// The registry registers each descriptor under its own id.
    pub open spec fn wf(self) -> bool {
        spec_wf_map(self.entries())
    }

    /// A fresh registry tracks nothing.
    pub fn new() -> (r: DeviceRegistry)
        ensures
            r.entries() == Map::<u64, DeviceInfoV>::empty(),
            r.wf(),
    {
        let r = DeviceRegistry { devices: HashMap::new() };
        proof {
            assert(r.entries() =~= Map::<u64, DeviceInfoV>::empty());
        }
        r
    }

    /// Whether a unit with this id is currently tracked.
    pub fn is_tracked(&self, id: u64) -> (r: bool)
        ensures
            r == self.entries().contains_key(id),
    {
        self.devices.contains_key(&id)
    }

    /// How many units are tracked.
    pub fn device_count(&self) -> (n: usize)
        ensures
            n == self.entries().dom().len(),
    {
        proof {
            assert(self.devices@.dom() =~= self.entries().dom());
        }
        self.devices.len()
    }

    /// The disconnect pass: remove every listed id and hand back the
    /// descriptor each was tracked under, in order, for the Disconnected
    /// callbacks.
    pub fn sweep_disconnected(&mut self, ids: &Vec<u64>) -> (removed: Vec<DeviceInfo>)
        ensures
            final(self).entries() == spec_sweep_map(old(self).entries(), ids@),
            removed@.map_values(|d: DeviceInfo| d@) == spec_sweep_removed(
                old(self).entries(),
                ids@,
            ),
            old(self).wf() ==> final(self).wf(),
    {
        let ghost m0 = self.entries();
        let mut removed: Vec<DeviceInfo> = Vec::new();
        let mut i: usize = 0;
        proof {
            assert(ids@.skip(0) =~= ids@);
            assert(removed@.map_values(|d: DeviceInfo| d@) =~= Seq::<DeviceInfoV>::empty());
        }
        while i < ids.len()
            invariant
                i <= ids.len(),
                spec_sweep_map(m0, ids@) == spec_sweep_map(self.entries(), ids@.skip(i as int)),
                spec_sweep_removed(m0, ids@) == removed@.map_values(|d: DeviceInfo| d@)
                    + spec_sweep_removed(self.entries(), ids@.skip(i as int)),
                spec_wf_map(m0) ==> spec_wf_map(self.entries()),
            decreases ids.len() - i,
        {
            let id = ids[i];
            let ghost cur = self.entries();
            let ghost rem = ids@.skip(i as int);
            proof {
                assert(rem[0] == ids@[i as int]);
                assert(rem.drop_first() =~= ids@.skip(i as int + 1));
            }
            match self.devices.remove(&id) {
                Some(d) => {
                    removed.push(d);
                    proof {
                        assert(cur.contains_key(id) && cur[id] == d@);
                        assert(self.entries() =~= cur.remove(id));
                        assert(removed@.map_values(|x: DeviceInfo| x@)
                            =~= removed@.drop_last().map_values(|x: DeviceInfo| x@) + seq![d@]);
                        assert(removed@.drop_last().map_values(|x: DeviceInfo| x@) + seq![d@]
                            + spec_sweep_removed(self.entries(), rem.drop_first())
                            =~= removed@.drop_last().map_values(|x: DeviceInfo| x@) + (seq![d@]
                            + spec_sweep_removed(self.entries(), rem.drop_first())));
                    }
                },
                None => {
                    proof {
                        assert(!cur.contains_key(id));
                        assert(self.entries() =~= cur.remove(id));
                    }
                },
            }
            i = i + 1;
        }
        proof {
            assert(ids@.skip(ids@.len() as int).len() == 0);
            assert(removed@.map_values(|d: DeviceInfo| d@) + Seq::<DeviceInfoV>::empty()
                =~= removed@.map_values(|d: DeviceInfo| d@));
        }
        removed
    }

    /// The descriptors of every tracked unit: one per tracked entry, each
    /// entry's descriptor present, in no promised order.
    pub fn device_info(&self) -> (r: Vec<DeviceInfo>)
        ensures
            r@.len() == self.entries().dom().len(),
            forall|i: int|
                0 <= i < r@.len() ==> self.entries().values().contains(#[trigger] r@[i]@),
            forall|k: u64|
                self.entries().contains_key(k) ==> exists|i: int|
                    0 <= i < r@.len() && #[trigger] r@[i]@ == self.entries()[k],
    {
        let mut r: Vec<DeviceInfo> = Vec::new();
        proof {
            assert(self.entries().dom() =~= self.devices@.dom());
        }
        for kv in it: self.devices.iter()
            invariant
                r@.len() == it.index(),
                it.seq().len() == self.devices@.dom().len(),
                self.entries().dom() == self.devices@.dom(),
                forall|j: int|
                    0 <= j < it.seq().len() ==> #[trigger] self.devices@.contains_key(
                        *it.seq()[j].0,
                    ) && self.devices@[*it.seq()[j].0] == *it.seq()[j].1,
                forall|k: u64|
                    #[trigger] self.devices@.contains_key(k) ==> it.seq().contains(
                        (&k, &self.devices@[k]),
                    ),
                forall|j: int|
                    #![trigger r@[j]]
                    #![trigger it.seq()[j]]
                    0 <= j < r@.len() ==> r@[j]@ == it.seq()[j].1@,
                forall|j: int|
                    0 <= j < r@.len() ==> self.entries().values().contains(#[trigger] r@[j]@),
        {
            proof {
                let j = it.index() as int;
                let k0 = *it.seq()[j].0;
                assert(self.devices@.contains_key(k0) && self.devices@[k0] == *it.seq()[j].1);
                assert(self.entries().contains_key(k0) && self.entries()[k0] == kv.1@);
                assert(self.entries().contains_value(kv.1@));
            }
            r.push(kv.1.clone());
        }
        proof {
            assert forall|k: u64| self.entries().contains_key(k) implies exists|i: int|
                0 <= i < r@.len() && #[trigger] r@[i]@ == self.entries()[k] by {
                assert(self.devices@.contains_key(k));
            }
        }
        r
    }

    /// The discovery pass: register every enumerated device that a catalog
    /// model claims and that is not yet tracked, and hand back the new
    /// descriptors, in order, for the Connected callbacks.
    pub fn discover(&mut self, found: &Vec<HidDeviceInfo>) -> (added: Vec<DeviceInfo>)
        ensures
            final(self).entries() == spec_discover_map(
                old(self).entries(),
                found@.map_values(|h: HidDeviceInfo| h@),
            ),
            added@.map_values(|d: DeviceInfo| d@) == spec_discover_added(
                old(self).entries(),
                found@.map_values(|h: HidDeviceInfo| h@),
            ),
            old(self).wf() ==> final(self).wf(),
    {
        let ghost m0 = self.entries();
        let ghost cv = found@.map_values(|h: HidDeviceInfo| h@);
        let mut added: Vec<DeviceInfo> = Vec::new();
        let mut i: usize = 0;
        proof {
            assert(cv.skip(0) =~= cv);
            assert(added@.map_values(|d: DeviceInfo| d@) =~= Seq::<DeviceInfoV>::empty());
        }
        while i < found.len()
            invariant
                i <= found.len(),
                cv == found@.map_values(|h: HidDeviceInfo| h@),
                cv.len() == found@.len(),
                spec_discover_map(m0, cv) == spec_discover_map(self.entries(), cv.skip(i as int)),
                spec_discover_added(m0, cv) == added@.map_values(|d: DeviceInfo| d@)
                    + spec_discover_added(self.entries(), cv.skip(i as int)),
                spec_wf_map(m0) ==> spec_wf_map(self.entries()),
            decreases found.len() - i,
        {
            let d = &found[i];
            let ghost cur = self.entries();
            let ghost rem = cv.skip(i as int);
            proof {
                assert(rem[0] == cv[i as int]);
                assert(cv[i as int] == found@[i as int]@);
                assert(rem.drop_first() =~= cv.skip(i as int + 1));
            }
            let matched = find_match(d);
            let mut accepted = false;
            if matched.is_some() {
                let id = get_device_id(d);
                if !self.devices.contains_key(&id) {
                    accepted = true;
                    let desc = make_descriptor(d, id);
                    let registered = desc.clone();
                    self.devices.insert(id, registered);
                    added.push(desc);
                    proof {
                        assert(self.entries() =~= cur.insert(id, spec_descriptor(d@)));
                        assert(self.entries() == spec_discover_one(cur, rem[0]));
                        assert(added@.map_values(|x: DeviceInfo| x@) =~= added@.drop_last()
                            .map_values(|x: DeviceInfo| x@) + seq![spec_descriptor(d@)]);
                        assert(added@.drop_last().map_values(|x: DeviceInfo| x@) + seq![
                            spec_descriptor(d@),
                        ] + spec_discover_added(self.entries(), rem.drop_first()) =~= added@
                            .drop_last().map_values(|x: DeviceInfo| x@) + (seq![
                            spec_descriptor(d@),
                        ] + spec_discover_added(self.entries(), rem.drop_first())));
                    }
                }
            }
            proof {
                if !accepted {
                    assert(self.entries() == cur);
                    assert(self.entries() == spec_discover_one(cur, rem[0]));
                }
            }
            i = i + 1;
        }
        proof {
            assert(cv.skip(cv.len() as int).len() == 0);
            assert(added@.map_values(|d: DeviceInfo| d@) + Seq::<DeviceInfoV>::empty() =~= added@
                .map_values(|d: DeviceInfo| d@));
        }
        added
    }
}

/// The stable id of one enumerated device: a hash of its serial number (a
/// fixed placeholder where it reports none), vendor id and product id.
pub fn get_device_id(device_info: &HidDeviceInfo) -> (id: u64)
    ensures
        id == spec_device_id(device_info@),
{
    match &device_info.serial_number {
        Some(s) => device_id_hash(s.as_str(), device_info.vendor_id, device_info.product_id),
        None => device_id_hash("NO SERIAL", device_info.vendor_id, device_info.product_id),
    }
}

/// Build the descriptor an accepted device is registered under.
fn make_descriptor(d: &HidDeviceInfo, id: u64) -> (r: DeviceInfo)
    requires
        id == spec_device_id(d@),
    ensures
        r@ == spec_descriptor(d@),
{
    let manufacturer_name = match &d.manufacturer_string {
        Some(s) => s.clone(),
        None => "ERR COULD NOT BE FOUND".to_owned(),
    };
    let device_name = match &d.product_string {
        Some(s) => s.clone(),
        None => "ERR COULD NOT BE FOUND".to_owned(),
    };
    DeviceInfo {
        vendor_id: d.vendor_id,
        product_id: d.product_id,
        manufacturer_name,
        device_name,
        device_id: id,
        device_type: DeviceType::Keyboard,
    }
}

} // verus!
