//! A home of rooms, and the textual reports on the devices of a room.
use vstd::prelude::*;
use crate::home_part::device::{status_entries, DeviceState, SmartDevice};
use crate::home_part::errors::CommonError;
use crate::home_part::room::{device_entries, Room, RoomState};
use crate::table::{has_key, keyed, keys_distinct, lemma_keyed_index};

verus! {

/// What `serde_json::to_string_pretty` makes of a map of status values.
pub uninterp spec fn pretty_json_of(m: Map<Seq<char>, Seq<char>>) -> Seq<char>;

/// Relies on `serde_json::to_string_pretty`: the status values rendered as
/// one pretty-printed JSON object. The pairs go through a `BTreeMap`, so the
/// text depends on the map of values alone; serialising a map whose keys and
/// values are strings does not fail.
#[verifier::external_body]
fn pretty_json(entries: &Vec<(String, String)>) -> (r: String)
    requires
        keys_distinct(status_entries(entries@)),
    ensures
        r@ == pretty_json_of(keyed(status_entries(entries@))),
{
    let map: std::collections::BTreeMap<&String, &String> = entries.iter().map(|(k, v)| (k, v)).collect();
    serde_json::to_string_pretty(&map).unwrap_or_default()
}

/// The status part of a device report.
pub open spec fn status_text(d: DeviceState) -> Seq<char> {
    if d.status == Map::<Seq<char>, Seq<char>>::empty() {
        "No status info"@
    } else {
        pretty_json_of(d.status)
    }
}

/// The four lines of a device report.
pub open spec fn device_text(title: Seq<char>, vendor_id: Seq<char>, room: Seq<char>, status: Seq<
    char,
>) -> Seq<char> {
    "Name: "@ + title + "\nVendor ID: "@ + vendor_id + "\nRoom: "@ + room + "\nStat's: "@ + status
}

/// The report on device `d` of the room named `room`.
pub open spec fn device_report(d: DeviceState, room: Seq<char>) -> Seq<char> {
    device_text(d.name, d.vendor_id, room, status_text(d))
}

pub open spec fn digit_text(d: nat) -> Seq<char> {
    if d == 0 {
        "0"@
    } else if d == 1 {
        "1"@
    } else if d == 2 {
        "2"@
    } else if d == 3 {
        "3"@
    } else if d == 4 {
        "4"@
    } else if d == 5 {
        "5"@
    } else if d == 6 {
        "6"@
    } else if d == 7 {
        "7"@
    } else if d == 8 {
        "8"@
    } else {
        "9"@
    }
}

/// The decimal digits of `n`.
pub open spec fn decimal(n: nat) -> Seq<char>
    decreases n,
{
    if n < 10 {
        digit_text(n)
    } else {
        decimal(n / 10) + digit_text(n % 10)
    }
}

/// The report on the device numbered `count` among the devices of a room,
/// held under `key`.
pub open spec fn entry_text(count: nat, key: Seq<char>, vendor_id: Seq<char>, room: Seq<char>, status: Seq<
    char,
>) -> Seq<char> {
    "\n[REPORT#"@ + decimal(count) + "]\n"@ + device_text(key, vendor_id, room, status) + "\n"@
}

/// The reports on the devices `es` of the room named `room`, numbered from 1.
pub open spec fn room_report(es: Seq<(Seq<char>, DeviceState)>, room: Seq<char>) -> Seq<char>
    decreases es.len(),
{
    if es.len() == 0 {
        Seq::empty()
    } else {
        room_report(es.drop_last(), room) + entry_text(
            es.len() as nat,
            es.last().0,
            es.last().1.vendor_id,
            room,
            status_text(es.last().1),
        )
    }
}

fn digit_str(d: usize) -> (r: &'static str)
    requires
        d < 10,
    ensures
        r@ == digit_text(d as nat),
{
    if d == 0 {
        "0"
    } else if d == 1 {
        "1"
    } else if d == 2 {
        "2"
    } else if d == 3 {
        "3"
    } else if d == 4 {
        "4"
    } else if d == 5 {
        "5"
    } else if d == 6 {
        "6"
    } else if d == 7 {
        "7"
    } else if d == 8 {
        "8"
    } else {
        "9"
    }
}

/// `n` written in decimal.
pub fn decimal_string(n: usize) -> (r: String)
    ensures
        r@ == decimal(n as nat),
    decreases n,
{
    if n < 10 {
        String::from_str(digit_str(n))
    } else {
        let mut s = decimal_string(n / 10);
        s.append(digit_str(n % 10));
        s
    }
}

/// The four lines of a device report from its parts.
pub fn device_info_text(title: &str, vendor_id: &str, room: &str, status: &str) -> (r: String)
    ensures
        r@ == device_text(title@, vendor_id@, room@, status@),
{
    let mut s = String::from_str("Name: ");
    s.append(title);
    s.append("\nVendor ID: ");
    s.append(vendor_id);
    s.append("\nRoom: ");
    s.append(room);
    s.append("\nStat's: ");
    s.append(status);
    s
}

/// The numbered report on one device of a room from its parts.
pub fn entry_info_text(count: usize, key: &str, vendor_id: &str, room: &str, status: &str) -> (r:
    String)
    ensures
        r@ == entry_text(count as nat, key@, vendor_id@, room@, status@),
{
    let mut s = String::from_str("\n[REPORT#");
    let digits = decimal_string(count);
    s.append(digits.as_str());
    s.append("]\n");
    let body = device_info_text(key, vendor_id, room, status);
    s.append(body.as_str());
    s.append("\n");
    s
}

/// The status part of the report on `d`.
fn status_info_text(d: &SmartDevice) -> (r: String)
    requires
        d.wf(),
    ensures
        r@ == status_text(d@),
{
    let ghost s = status_entries(d.status_info@);
    if d.status_info.len() == 0 {
        proof {
            assert(d@.status =~= Map::<Seq<char>, Seq<char>>::empty());
        }
        String::from_str("No status info")
    } else {
        proof {
            lemma_keyed_index(s, 0);
            assert(d@.status.contains_key(s[0].0));
            assert(d@.status != Map::<Seq<char>, Seq<char>>::empty());
        }
        pretty_json(&d.status_info)
    }
}

/// The report on the device held under `device_name` in `room`, after
/// `header`.
fn device_info_in(header: &str, room: &Room, device_name: &str) -> (r: Result<String, CommonError>)
    requires
        room.wf(),
    ensures
        has_key(room@.devices, device_name@) ==> (r matches Ok(s) && s@ == header@
            + device_report(keyed(room@.devices)[device_name@], room@.name)),
        !has_key(room@.devices, device_name@) ==> r == Err::<String, CommonError>(
            CommonError::DontExistDevice,
        ),
{
    let key = String::from_str(device_name);
    let ghost s = room@.devices;
    let mut i: usize = 0;
    while i < room.smart_devices.len()
        invariant
            room.wf(),
            i <= room.smart_devices@.len(),
            s == device_entries(room.smart_devices@),
            key@ == device_name@,
            forall|j: int| 0 <= j < i ==> #[trigger] s[j].0 != device_name@,
        decreases room.smart_devices@.len() - i,
    {
        if room.smart_devices[i].0 == key {
            let dev = &room.smart_devices[i].1;
            proof {
                lemma_keyed_index(s, i as int);
                assert(room.smart_devices@[i as int].1.wf());
            }
            let status = status_info_text(dev);
            let body = device_info_text(
                dev.name.as_str(),
                dev.vendor_id.as_str(),
                room.name.as_str(),
                status.as_str(),
            );
            let mut text = String::from_str(header);
            text.append(body.as_str());
            return Ok(text);
        }
        i += 1;
    }
    proof {
        if has_key(s, device_name@) {
            let j = choose|j: int| 0 <= j < s.len() && #[trigger] s[j].0 == device_name@;
        }
    }
    Err(CommonError::DontExistDevice)
}

/// The numbered reports on all devices of `room`.
fn room_devices_info(room: &Room) -> (r: Result<String, CommonError>)
    requires
        room.wf(),
    ensures
        room@.devices.len() == 0 ==> r == Err::<String, CommonError>(CommonError::DontExistDevice),
        room@.devices.len() > 0 ==> (r matches Ok(s) && s@ == room_report(room@.devices, room@.name)),
{
    if room.smart_devices.len() == 0 {
        return Err(CommonError::DontExistDevice);
    }
    let ghost es = room@.devices;
    let mut out = String::new();
    let mut i: usize = 0;
    while i < room.smart_devices.len()
        invariant
            room.wf(),
            i <= room.smart_devices@.len(),
            es == device_entries(room.smart_devices@),
            out@ == room_report(es.take(i as int), room@.name),
        decreases room.smart_devices@.len() - i,
    {
        let key = &room.smart_devices[i].0;
        let dev = &room.smart_devices[i].1;
        proof {
            assert(room.smart_devices@[i as int].1.wf());
        }
        let status = status_info_text(dev);
        let entry = entry_info_text(
            i + 1,
            key.as_str(),
            dev.vendor_id.as_str(),
            room.name.as_str(),
            status.as_str(),
        );
        out.append(entry.as_str());
        proof {
            let t = es.take(i + 1);
            assert(t.drop_last() =~= es.take(i as int));
            assert(t.last() == es[i as int]);
        }
        i += 1;
    }
    proof {
        assert(es.take(room.smart_devices@.len() as int) =~= es);
    }
    Ok(out)
}

/// Textual reports on the devices of a room.
pub trait DeviceInfo {
    /// The text placed before the report on a single device.
    spec fn report_header(&self) -> Seq<char>;

    /// The report on the device held under `device_name` in `room`.
    fn get_device_info(&self, room: &Room, device_name: &str) -> (r: Result<String, CommonError>)
        requires
            room.wf(),
        ensures
            has_key(room@.devices, device_name@) ==> (r matches Ok(s) && s@
                == self.report_header() + device_report(
                keyed(room@.devices)[device_name@],
                room@.name,
            )),
            !has_key(room@.devices, device_name@) ==> r == Err::<String, CommonError>(
                CommonError::DontExistDevice,
            ),
    ;

    /// The numbered reports on all devices of `room`; a room without
    /// devices has none.
    fn get_room_devices_info(&self, room: &Room) -> (r: Result<String, CommonError>)
        requires
            room.wf(),
        ensures
            room@.devices.len() == 0 ==> r == Err::<String, CommonError>(
                CommonError::DontExistDevice,
            ),
            room@.devices.len() > 0 ==> (r matches Ok(s) && s@ == room_report(
                room@.devices,
                room@.name,
            )),
    ;
}

impl DeviceInfo for String {
    open spec fn report_header(&self) -> Seq<char> {
        Seq::empty()
    }

    fn get_device_info(&self, room: &Room, device_name: &str) -> (r: Result<String, CommonError>) {
        proof {
            reveal_strlit("");
        }
        device_info_in("", room, device_name)
    }

    fn get_room_devices_info(&self, room: &Room) -> (r: Result<String, CommonError>) {
        room_devices_info(room)
    }
}

/// A home as its title and its rooms in order.
pub struct HomeState {
    pub title: Seq<char>,
    pub rooms: Seq<RoomState>,
}

/// `rs` without the first room named `name`, if there is one.
pub open spec fn without_first_named(rs: Seq<RoomState>, name: Seq<char>) -> Seq<RoomState> {
    if exists|i: int| 0 <= i < rs.len() && #[trigger] rs[i].name == name {
        rs.remove(
            choose|i: int|
                0 <= i < rs.len() && #[trigger] rs[i].name == name && forall|j: int|
                    0 <= j < i ==> #[trigger] rs[j].name != name,
        )
    } else {
        rs
    }
}

#[derive(Debug)]
pub struct SmartHome {
    pub(crate) title: String,
    pub(crate) rooms: Vec<Room>,
}

pub open spec fn room_states(s: Seq<Room>) -> Seq<RoomState> {
    s.map_values(|r: Room| r@)
}

impl View for SmartHome {
    type V = HomeState;

    open(crate) spec fn view(&self) -> HomeState {
        HomeState { title: self.title@, rooms: room_states(self.rooms@) }
    }
}

impl SmartHome {
    /// Every room is well formed.
    pub open(crate) spec fn wf(&self) -> bool {
        forall|i: int| 0 <= i < self.rooms@.len() ==> (#[trigger] self.rooms@[i]).wf()
    }

    /// A home with no rooms.
    pub fn new(title: &str) -> (r: Self)
        ensures
            r.wf(),
            r@.title == title@,
            r@.rooms == Seq::<RoomState>::empty(),
    {
        let r = SmartHome { title: String::from_str(title), rooms: Vec::new() };
        assert(r@.rooms =~= Seq::<RoomState>::empty());
        r
    }

    /// Adds a copy of `room` after the rooms already there.
    pub fn update_rooms(&mut self, room: &Room)
        requires
            old(self).wf(),
            room.wf(),
        ensures
            final(self).wf(),
            final(self)@.title == old(self)@.title,
            final(self)@.rooms == old(self)@.rooms.push(room@),
    {
        let copy = room.duplicate();
        self.rooms.push(copy);
        proof {
            assert(room_states(self.rooms@) =~= room_states(old(self).rooms@).push(room@));
            assert forall|i: int| 0 <= i < self.rooms@.len() implies (
            #[trigger] self.rooms@[i]).wf() by {
                if i < old(self).rooms@.len() {
                    assert(self.rooms@[i] == old(self).rooms@[i]);
                }
            }
        }
    }

    /// Removes the first room named `room`, if any.
    pub fn remove_rooms(&mut self, room: &str)
        requires
            old(self).wf(),
        ensures
            final(self).wf(),
            final(self)@.title == old(self)@.title,
            final(self)@.rooms == without_first_named(old(self)@.rooms, room@),
    {
        let name = String::from_str(room);
        let ghost rs = self@.rooms;
        let mut i: usize = 0;
        while i < self.rooms.len()
            invariant
                self.wf(),
                i <= self.rooms@.len(),
                self.rooms == old(self).rooms,
                self.title == old(self).title,
                rs == room_states(self.rooms@),
                name@ == room@,
                forall|j: int| 0 <= j < i ==> #[trigger] rs[j].name != room@,
            decreases self.rooms@.len() - i,
        {
            if self.rooms[i].name == name {
                proof {
                    let c = choose|c: int|
                        0 <= c < rs.len() && #[trigger] rs[c].name == room@ && forall|j: int|
                            0 <= j < c ==> #[trigger] rs[j].name != room@;
                    assert(rs[i as int].name == room@);
                    if c < i {
                    } else if c > i {
                        assert(rs[i as int].name != room@);
                    }
                    assert(c == i);
                }
                self.rooms.remove(i);
                proof {
                    assert(room_states(self.rooms@) =~= rs.remove(i as int));
                    assert forall|j: int| 0 <= j < self.rooms@.len() implies (
                    #[trigger] self.rooms@[j]).wf() by {
                        if j < i {
                            assert(self.rooms@[j] == old(self).rooms@[j]);
                        } else {
                            assert(self.rooms@[j] == old(self).rooms@[j + 1]);
                        }
                    }
                }
                return;
            }
            i += 1;
        }
    }

    /// The names of the rooms in order; a home without rooms has none.
    pub fn get_rooms(&self) -> (r: Result<Vec<String>, CommonError>)
        ensures
            self@.rooms.len() == 0 ==> r == Err::<Vec<String>, CommonError>(
                CommonError::DontExistRoom,
            ),
            self@.rooms.len() > 0 ==> (r matches Ok(v) && v@.map_values(|s: String| s@)
                == self@.rooms.map_values(|rm: RoomState| rm.name)),
    {
        if self.rooms.len() == 0 {
            return Err(CommonError::DontExistRoom);
        }
        let mut names: Vec<String> = Vec::new();
        let mut i: usize = 0;
        while i < self.rooms.len()
            invariant
                i <= self.rooms@.len(),
                names@.len() == i,
                forall|j: int| 0 <= j < i ==> (#[trigger] names@[j])@ == self.rooms@[j].name@,
            decreases self.rooms@.len() - i,
        {
            names.push(self.rooms[i].name.clone());
            i += 1;
        }
        proof {
            assert(names@.map_values(|s: String| s@) =~= self@.rooms.map_values(
                |rm: RoomState| rm.name,
            ));
        }
        Ok(names)
    }

    /// Hands back the report it is given.
    pub fn create_report<'b, D: DeviceInfo>(&self, device_info: &'b D) -> (r: &'b D)
        ensures
            r == device_info,
    {
        device_info
    }
}

impl DeviceInfo for SmartHome {
    open spec fn report_header(&self) -> Seq<char> {
        "\n[REPORT]\n"@
    }

    fn get_device_info(&self, room: &Room, device_name: &str) -> (r: Result<String, CommonError>) {
        device_info_in("\n[REPORT]\n", room, device_name)
    }

    fn get_room_devices_info(&self, room: &Room) -> (r: Result<String, CommonError>) {
        room_devices_info(room)
    }
}

} // verus!
