//! A room of the in-memory home model: its devices under the key
//! `"<name>/<vendor id>"`, in the order they were first added.
use vstd::prelude::*;
use crate::home_part::device::{DeviceState, SmartDevice};
use crate::table::{has_key, keyed, keys_distinct, lemma_keyed_push, lemma_keyed_remove, lemma_keyed_update};

verus! {

/// The key a device is held under in a room.
pub open spec fn device_key(d: DeviceState) -> Seq<char> {
    d.name + "/"@ + d.vendor_id
}

/// The position of the entry with key `k`.
pub open spec fn index_of<M>(s: Seq<(Seq<char>, M)>, k: Seq<char>) -> int {
    choose|i: int| 0 <= i < s.len() && #[trigger] s[i].0 == k
}

/// `s` with the value under `k` replaced in place, or appended at the end
/// when no entry has key `k`.
pub open spec fn upsert<M>(s: Seq<(Seq<char>, M)>, k: Seq<char>, v: M) -> Seq<(Seq<char>, M)> {
    if has_key(s, k) {
        s.update(index_of(s, k), (k, v))
    } else {
        s.push((k, v))
    }
}

/// `s` without the entry with key `k`, if there is one.
pub open spec fn remove_key<M>(s: Seq<(Seq<char>, M)>, k: Seq<char>) -> Seq<(Seq<char>, M)> {
    if has_key(s, k) {
        s.remove(index_of(s, k))
    } else {
        s
    }
}

/// A room as its name and its keyed devices in order.
pub struct RoomState {
    pub name: Seq<char>,
    pub devices: Seq<(Seq<char>, DeviceState)>,
}

/// Device entries seen through their views.
pub open spec fn device_entries(s: Seq<(String, SmartDevice)>) -> Seq<(Seq<char>, DeviceState)> {
    s.map_values(|p: (String, SmartDevice)| (p.0@, p.1@))
}

#[derive(Debug)]
pub struct Room {
    pub(crate) name: String,
    pub(crate) smart_devices: Vec<(String, SmartDevice)>,
}

impl View for Room {
    type V = RoomState;

    open(crate) spec fn view(&self) -> RoomState {
        RoomState { name: self.name@, devices: device_entries(self.smart_devices@) }
    }
}

impl Room {
    /// Device keys are distinct and every device is well formed.
    pub open(crate) spec fn wf(&self) -> bool {
        &&& keys_distinct(device_entries(self.smart_devices@))
        &&& forall|i: int|
            0 <= i < self.smart_devices@.len() ==> (#[trigger] self.smart_devices@[i]).1.wf()
    }

    /// A room with no devices.
    pub fn new(name: &str) -> (r: Self)
        ensures
            r.wf(),
            r@.name == name@,
            r@.devices == Seq::<(Seq<char>, DeviceState)>::empty(),
    {
        let r = Room { name: String::from_str(name), smart_devices: Vec::new() };
        assert(r@.devices =~= Seq::<(Seq<char>, DeviceState)>::empty());
        r
    }

    /// Places a copy of `device` under its key, replacing a device already
    /// held under that key in place.
    pub fn append_room_device(&mut self, device: &SmartDevice)
        requires
            old(self).wf(),
            device.wf(),
        ensures
            final(self).wf(),
            final(self)@.name == old(self)@.name,
            final(self)@.devices == upsert(old(self)@.devices, device_key(device@), device@),
    {
        let mut key = device.name.clone();
        key.append("/");
        key.append(device.vendor_id.as_str());
        let ghost s = device_entries(self.smart_devices@);
        let mut i: usize = 0;
        while i < self.smart_devices.len()
            invariant
                i <= self.smart_devices@.len(),
                s == device_entries(self.smart_devices@),
                self.wf(),
                self.name == old(self).name,
                self.smart_devices == old(self).smart_devices,
                key@ == device_key(device@),
                device.wf(),
                forall|j: int| 0 <= j < i ==> #[trigger] s[j].0 != key@,
            decreases self.smart_devices@.len() - i,
        {
            if self.smart_devices[i].0 == key {
                let copy = device.duplicate();
                proof {
                    assert(index_of(s, key@) == i) by {
                        let j = index_of(s, key@);
                        assert(s[i as int].0 == key@);
                    }
                    lemma_keyed_update(s, i as int, device@);
                }
                self.smart_devices[i].1 = copy;
                proof {
                    assert(device_entries(self.smart_devices@) =~= s.update(
                        i as int,
                        (key@, device@),
                    ));
                    assert forall|j: int| 0 <= j < self.smart_devices@.len() implies (
                    #[trigger] self.smart_devices@[j]).1.wf() by {
                        if j != i {
                            assert(self.smart_devices@[j] == old(self).smart_devices@[j]);
                        }
                    }
                }
                return;
            }
            i += 1;
        }
        let copy = device.duplicate();
        proof {
            lemma_keyed_push(s, (key@, device@));
        }
        let ghost kv = key@;
        self.smart_devices.push((key, copy));
        proof {
            assert(device_entries(self.smart_devices@) =~= s.push((kv, device@)));
            assert forall|j: int| 0 <= j < self.smart_devices@.len() implies (
            #[trigger] self.smart_devices@[j]).1.wf() by {
                if j < s.len() {
                    assert(self.smart_devices@[j] == old(self).smart_devices@[j]);
                }
            }
        }
    }

    /// Removes the device held under key `device`, if any.
    pub fn remove_device(&mut self, device: &str)
        requires
            old(self).wf(),
        ensures
            final(self).wf(),
            final(self)@.name == old(self)@.name,
            final(self)@.devices == remove_key(old(self)@.devices, device@),
    {
        let key = String::from_str(device);
        let ghost s = device_entries(self.smart_devices@);
        let mut i: usize = 0;
        while i < self.smart_devices.len()
            invariant
                i <= self.smart_devices@.len(),
                s == device_entries(self.smart_devices@),
                self.wf(),
                self.name == old(self).name,
                self.smart_devices == old(self).smart_devices,
                key@ == device@,
                forall|j: int| 0 <= j < i ==> #[trigger] s[j].0 != device@,
            decreases self.smart_devices@.len() - i,
        {
            if self.smart_devices[i].0 == key {
                proof {
                    assert(index_of(s, device@) == i) by {
                        let j = index_of(s, device@);
                        assert(s[i as int].0 == device@);
                    }
                }
                self.smart_devices.remove(i);
                proof {
                    assert(device_entries(self.smart_devices@) =~= s.remove(i as int));
                    lemma_keyed_remove(s, i as int);
                    assert forall|j: int| 0 <= j < self.smart_devices@.len() implies (
                    #[trigger] self.smart_devices@[j]).1.wf() by {
                        if j < i {
                            assert(self.smart_devices@[j] == old(self).smart_devices@[j]);
                        } else {
                            assert(self.smart_devices@[j] == old(self).smart_devices@[j + 1]);
                        }
                    }
                }
                return;
            }
            i += 1;
        }
        proof {
            if has_key(s, device@) {
                let j = choose|j: int| 0 <= j < s.len() && #[trigger] s[j].0 == device@;
            }
        }
    }

    /// A copy of this room.
    pub fn duplicate(&self) -> (r: Self)
        requires
            self.wf(),
        ensures
            r.wf(),
            r@ == self@,
    {
        let mut devices: Vec<(String, SmartDevice)> = Vec::new();
        let mut i: usize = 0;
        while i < self.smart_devices.len()
            invariant
                self.wf(),
                i <= self.smart_devices@.len(),
                device_entries(devices@) == device_entries(self.smart_devices@).take(i as int),
                forall|j: int| 0 <= j < devices@.len() ==> (#[trigger] devices@[j]).1.wf(),
            decreases self.smart_devices@.len() - i,
        {
            let k = self.smart_devices[i].0.clone();
            let d = self.smart_devices[i].1.duplicate();
            let ghost before = device_entries(devices@);
            let ghost entry = (k@, d@);
            devices.push((k, d));
            proof {
                assert(device_entries(devices@) =~= before.push(entry));
                assert(device_entries(self.smart_devices@).take(i + 1) =~= device_entries(
                    self.smart_devices@,
                ).take(i as int).push(entry));
            }
            i += 1;
        }
        proof {
            assert(device_entries(self.smart_devices@).take(self.smart_devices@.len() as int)
                =~= device_entries(self.smart_devices@));
        }
        Room { name: self.name.clone(), smart_devices: devices }
    }
}

} // verus!
