//! The data-access layer: three tables of rows with server-assigned
//! identifiers, and one method per operation that reads or writes them.
use vstd::prelude::*;
use crate::errors::{result_view, DataError, DataResult};
use crate::sql::models::{device_views, house_views, room_views, House, Room, SmartDevice};
use crate::sql::schema::{
    device_outside_house, device_outside_room, room_outside_house, DbModel, DeviceModel, RoomModel,
    MAX_ID,
};
use crate::table::{
    has_key, keep_where, keyed, keys_distinct, lemma_keyed_index, lemma_keyed_push,
    lemma_keyed_remove, lemma_keyed_take_step, lemma_keyed_update,
};

verus! {

struct HouseRow {
    id: i32,
    name: String,
}

struct RoomRow {
    id: i32,
    house_id: i32,
    name: String,
}

struct DeviceRow {
    id: i32,
    house_id: i32,
    room_id: i32,
    vendor_id: String,
    name: String,
    is_on: bool,
    voltage: String,
    power: String,
}

impl HouseRow {
    fn duplicate(&self) -> (r: Self)
        ensures
            r == *self,
    {
        HouseRow { id: self.id, name: self.name.clone() }
    }
}

impl RoomRow {
    fn duplicate(&self) -> (r: Self)
        ensures
            r == *self,
    {
        RoomRow { id: self.id, house_id: self.house_id, name: self.name.clone() }
    }
}

impl DeviceRow {
    fn duplicate(&self) -> (r: Self)
        ensures
            r == *self,
    {
        DeviceRow {
            id: self.id,
            house_id: self.house_id,
            room_id: self.room_id,
            vendor_id: self.vendor_id.clone(),
            name: self.name.clone(),
            is_on: self.is_on,
            voltage: self.voltage.clone(),
            power: self.power.clone(),
        }
    }
}

spec fn house_entry(r: HouseRow) -> (i32, Seq<char>) {
    (r.id, r.name@)
}

spec fn room_entry(r: RoomRow) -> (i32, RoomModel) {
    (r.id, RoomModel { house_id: r.house_id, name: r.name@ })
}

spec fn device_entry(r: DeviceRow) -> (i32, DeviceModel) {
    (
        r.id,
        DeviceModel {
            house_id: r.house_id,
            room_id: r.room_id,
            vendor_id: r.vendor_id@,
            name: r.name@,
            is_on: r.is_on,
            voltage: r.voltage@,
            power: r.power@,
        },
    )
}

spec fn house_entries(s: Seq<HouseRow>) -> Seq<(i32, Seq<char>)> {
    s.map_values(|r: HouseRow| house_entry(r))
}

spec fn room_entries(s: Seq<RoomRow>) -> Seq<(i32, RoomModel)> {
    s.map_values(|r: RoomRow| room_entry(r))
}

spec fn device_entries(s: Seq<DeviceRow>) -> Seq<(i32, DeviceModel)> {
    s.map_values(|r: DeviceRow| device_entry(r))
}

spec fn in_room(h: i32, r: i32, row: DeviceRow) -> bool {
    row.house_id == h && row.room_id == r
}

/// The rows of `rows` whose entry satisfies `room_outside_house(x)`, in order.
fn rooms_outside_house(rows: &Vec<RoomRow>, x: i32) -> (out: Vec<RoomRow>)
    requires
        keys_distinct(room_entries(rows@)),
    ensures
        keys_distinct(room_entries(out@)),
        keyed(room_entries(out@)) == keep_where(keyed(room_entries(rows@)), room_outside_house(x)),
{
    let ghost s = room_entries(rows@);
    let ghost p = room_outside_house(x);
    let mut out: Vec<RoomRow> = Vec::new();
    let mut j: usize = 0;
    assert(keyed(room_entries(out@)) =~= keep_where(keyed(s.take(0)), p));
    while j < rows.len()
        invariant
            j <= rows@.len(),
            s == room_entries(rows@),
            p == room_outside_house(x),
            keys_distinct(s),
            keys_distinct(room_entries(out@)),
            keyed(room_entries(out@)) == keep_where(keyed(s.take(j as int)), p),
            forall|k: i32| has_key(room_entries(out@), k) ==> has_key(s.take(j as int), k),
        decreases rows@.len() - j,
    {
        let ghost o = room_entries(out@);
        proof {
            lemma_keyed_take_step(s, j as int);
        }
        if rows[j].house_id != x {
            let row = rows[j].duplicate();
            proof {
                lemma_keyed_push(o, s[j as int]);
            }
            out.push(row);
            proof {
                assert(room_entries(out@) =~= o.push(s[j as int]));
                assert(keep_where(keyed(s.take(j + 1)), p) =~= keep_where(
                    keyed(s.take(j as int)),
                    p,
                ).insert(s[j as int].0, s[j as int].1));
                assert forall|k: i32| has_key(room_entries(out@), k) implies has_key(
                    s.take(j + 1),
                    k,
                ) by {
                    let a = choose|a: int|
                        0 <= a < room_entries(out@).len() && #[trigger] room_entries(out@)[a].0 == k;
                    if a < o.len() {
                        assert(o[a].0 == k);
                        assert(has_key(o, k));
                        let b = choose|b: int| 0 <= b < j && #[trigger] s.take(j as int)[b].0 == k;
                        assert(s.take(j + 1)[b].0 == k);
                    } else {
                        assert(s.take(j + 1)[j as int].0 == k);
                    }
                }
            }
        } else {
            proof {
                assert(keep_where(keyed(s.take(j + 1)), p) =~= keep_where(
                    keyed(s.take(j as int)),
                    p,
                ));
                assert forall|k: i32| has_key(room_entries(out@), k) implies has_key(
                    s.take(j + 1),
                    k,
                ) by {
                    let b = choose|b: int| 0 <= b < j && #[trigger] s.take(j as int)[b].0 == k;
                    assert(s.take(j + 1)[b].0 == k);
                }
            }
        }
        j += 1;
    }
    assert(s.take(rows@.len() as int) =~= s);
    out
}

/// The rows of `rows` whose entry satisfies `device_outside_house(x)`, in order.
fn devices_outside_house(rows: &Vec<DeviceRow>, x: i32) -> (out: Vec<DeviceRow>)
    requires
        keys_distinct(device_entries(rows@)),
    ensures
        keys_distinct(device_entries(out@)),
        keyed(device_entries(out@)) == keep_where(keyed(device_entries(rows@)), device_outside_house(x)),
{
    let ghost s = device_entries(rows@);
    let ghost p = device_outside_house(x);
    let mut out: Vec<DeviceRow> = Vec::new();
    let mut j: usize = 0;
    assert(keyed(device_entries(out@)) =~= keep_where(keyed(s.take(0)), p));
    while j < rows.len()
        invariant
            j <= rows@.len(),
            s == device_entries(rows@),
            p == device_outside_house(x),
            keys_distinct(s),
            keys_distinct(device_entries(out@)),
            keyed(device_entries(out@)) == keep_where(keyed(s.take(j as int)), p),
            forall|k: i32| has_key(device_entries(out@), k) ==> has_key(s.take(j as int), k),
        decreases rows@.len() - j,
    {
        let ghost o = device_entries(out@);
        proof {
            lemma_keyed_take_step(s, j as int);
        }
        if rows[j].house_id != x {
            let row = rows[j].duplicate();
            proof {
                lemma_keyed_push(o, s[j as int]);
            }
            out.push(row);
            proof {
                assert(device_entries(out@) =~= o.push(s[j as int]));
                assert(keep_where(keyed(s.take(j + 1)), p) =~= keep_where(
                    keyed(s.take(j as int)),
                    p,
                ).insert(s[j as int].0, s[j as int].1));
                assert forall|k: i32| has_key(device_entries(out@), k) implies has_key(
                    s.take(j + 1),
                    k,
                ) by {
                    let a = choose|a: int|
                        0 <= a < device_entries(out@).len() && #[trigger] device_entries(out@)[a].0 == k;
                    if a < o.len() {
                        assert(o[a].0 == k);
                        assert(has_key(o, k));
                        let b = choose|b: int| 0 <= b < j && #[trigger] s.take(j as int)[b].0 == k;
                        assert(s.take(j + 1)[b].0 == k);
                    } else {
                        assert(s.take(j + 1)[j as int].0 == k);
                    }
                }
            }
        } else {
            proof {
                assert(keep_where(keyed(s.take(j + 1)), p) =~= keep_where(
                    keyed(s.take(j as int)),
                    p,
                ));
                assert forall|k: i32| has_key(device_entries(out@), k) implies has_key(
                    s.take(j + 1),
                    k,
                ) by {
                    let b = choose|b: int| 0 <= b < j && #[trigger] s.take(j as int)[b].0 == k;
                    assert(s.take(j + 1)[b].0 == k);
                }
            }
        }
        j += 1;
    }
    assert(s.take(rows@.len() as int) =~= s);
    out
}

/// The rows of `rows` whose entry satisfies `device_outside_room(x)`, in order.
fn devices_outside_room(rows: &Vec<DeviceRow>, x: i32) -> (out: Vec<DeviceRow>)
    requires
        keys_distinct(device_entries(rows@)),
    ensures
        keys_distinct(device_entries(out@)),
        keyed(device_entries(out@)) == keep_where(keyed(device_entries(rows@)), device_outside_room(x)),
{
    let ghost s = device_entries(rows@);
    let ghost p = device_outside_room(x);
    let mut out: Vec<DeviceRow> = Vec::new();
    let mut j: usize = 0;
    assert(keyed(device_entries(out@)) =~= keep_where(keyed(s.take(0)), p));
    while j < rows.len()
        invariant
            j <= rows@.len(),
            s == device_entries(rows@),
            p == device_outside_room(x),
            keys_distinct(s),
            keys_distinct(device_entries(out@)),
            keyed(device_entries(out@)) == keep_where(keyed(s.take(j as int)), p),
            forall|k: i32| has_key(device_entries(out@), k) ==> has_key(s.take(j as int), k),
        decreases rows@.len() - j,
    {
        let ghost o = device_entries(out@);
        proof {
            lemma_keyed_take_step(s, j as int);
        }
        if rows[j].room_id != x {
            let row = rows[j].duplicate();
            proof {
                lemma_keyed_push(o, s[j as int]);
            }
            out.push(row);
            proof {
                assert(device_entries(out@) =~= o.push(s[j as int]));
                assert(keep_where(keyed(s.take(j + 1)), p) =~= keep_where(
                    keyed(s.take(j as int)),
                    p,
                ).insert(s[j as int].0, s[j as int].1));
                assert forall|k: i32| has_key(device_entries(out@), k) implies has_key(
                    s.take(j + 1),
                    k,
                ) by {
                    let a = choose|a: int|
                        0 <= a < device_entries(out@).len() && #[trigger] device_entries(out@)[a].0 == k;
                    if a < o.len() {
                        assert(o[a].0 == k);
                        assert(has_key(o, k));
                        let b = choose|b: int| 0 <= b < j && #[trigger] s.take(j as int)[b].0 == k;
                        assert(s.take(j + 1)[b].0 == k);
                    } else {
                        assert(s.take(j + 1)[j as int].0 == k);
                    }
                }
            }
        } else {
            proof {
                assert(keep_where(keyed(s.take(j + 1)), p) =~= keep_where(
                    keyed(s.take(j as int)),
                    p,
                ));
                assert forall|k: i32| has_key(device_entries(out@), k) implies has_key(
                    s.take(j + 1),
                    k,
                ) by {
                    let b = choose|b: int| 0 <= b < j && #[trigger] s.take(j as int)[b].0 == k;
                    assert(s.take(j + 1)[b].0 == k);
                }
            }
        }
        j += 1;
    }
    assert(s.take(rows@.len() as int) =~= s);
    out
}

/// The store: houses, rooms and devices, each table with the identifier it
/// hands out next.
pub struct DB {
    houses: Vec<HouseRow>,
    rooms: Vec<RoomRow>,
    devices: Vec<DeviceRow>,
    next_house: i32,
    next_room: i32,
    next_device: i32,
}

impl View for DB {
    type V = DbModel;

    closed spec fn view(&self) -> DbModel {
        DbModel {
            houses: keyed(house_entries(self.houses@)),
            rooms: keyed(room_entries(self.rooms@)),
            devices: keyed(device_entries(self.devices@)),
            next_house: self.next_house,
            next_room: self.next_room,
            next_device: self.next_device,
        }
    }
}

fn not_found(what: &str) -> (r: DataError)
    ensures
        r@ == crate::errors::ErrorKind::NotFound,
{
    let mut s = String::from_str(what);
    s.append(" is not found");
    DataError::NotFound(s)
}

fn internal(what: &str) -> (r: DataError)
    ensures
        r@ == crate::errors::ErrorKind::Internal,
{
    DataError::InternalError(String::from_str(what))
}

impl DB {
    /// Identifiers are unique within each table and the tables make a
    /// well-formed relational state.
    pub closed spec fn wf(&self) -> bool {
        &&& keys_distinct(house_entries(self.houses@))
        &&& keys_distinct(room_entries(self.rooms@))
        &&& keys_distinct(device_entries(self.devices@))
        &&& self@.wf()
    }

    /// An empty store.
    pub fn new() -> (r: Self)
        ensures
            r.wf(),
            r@ == DbModel::empty(),
    {
        let r = DB {
            houses: Vec::new(),
            rooms: Vec::new(),
            devices: Vec::new(),
            next_house: 1,
            next_room: 1,
            next_device: 1,
        };
        assert(r@.houses =~= Map::empty());
        assert(r@.rooms =~= Map::empty());
        assert(r@.devices =~= Map::empty());
        r
    }

    fn find_house(&self, h: i32) -> (r: Option<usize>)
        requires
            self.wf(),
        ensures
            r is Some <==> self@.houses.contains_key(h),
            r matches Some(i) ==> i < self.houses@.len() && self.houses@[i as int].id == h
                && self@.houses[h] == self.houses@[i as int].name@,
    {
        let ghost s = house_entries(self.houses@);
        let mut i: usize = 0;
        while i < self.houses.len()
            invariant
                i <= self.houses@.len(),
                s == house_entries(self.houses@),
                keys_distinct(s),
                forall|j: int| 0 <= j < i ==> #[trigger] self.houses@[j].id != h,
            decreases self.houses@.len() - i,
        {
            if self.houses[i].id == h {
                proof {
                    lemma_keyed_index(s, i as int);
                }
                return Some(i);
            }
            i += 1;
        }
        proof {
            if has_key(s, h) {
                let j = choose|j: int| 0 <= j < s.len() && #[trigger] s[j].0 == h;
                assert(self.houses@[j].id == h);
            }
        }
        None
    }

    fn find_room(&self, r: i32) -> (res: Option<usize>)
        requires
            self.wf(),
        ensures
            res is Some <==> self@.rooms.contains_key(r),
            res matches Some(i) ==> i < self.rooms@.len() && self.rooms@[i as int].id == r
                && self@.rooms[r] == room_entry(self.rooms@[i as int]).1,
    {
        let ghost s = room_entries(self.rooms@);
        let mut i: usize = 0;
        while i < self.rooms.len()
            invariant
                i <= self.rooms@.len(),
                s == room_entries(self.rooms@),
                keys_distinct(s),
                forall|j: int| 0 <= j < i ==> #[trigger] self.rooms@[j].id != r,
            decreases self.rooms@.len() - i,
        {
            if self.rooms[i].id == r {
                proof {
                    lemma_keyed_index(s, i as int);
                }
                return Some(i);
            }
            i += 1;
        }
        proof {
            if has_key(s, r) {
                let j = choose|j: int| 0 <= j < s.len() && #[trigger] s[j].0 == r;
                assert(self.rooms@[j].id == r);
            }
        }
        None
    }

    fn find_device(&self, d: i32) -> (res: Option<usize>)
        requires
            self.wf(),
        ensures
            res is Some <==> self@.devices.contains_key(d),
            res matches Some(i) ==> i < self.devices@.len() && self.devices@[i as int].id == d
                && self@.devices[d] == device_entry(self.devices@[i as int]).1,
    {
        let ghost s = device_entries(self.devices@);
        let mut i: usize = 0;
        while i < self.devices.len()
            invariant
                i <= self.devices@.len(),
                s == device_entries(self.devices@),
                keys_distinct(s),
                forall|j: int| 0 <= j < i ==> #[trigger] self.devices@[j].id != d,
            decreases self.devices@.len() - i,
        {
            if self.devices[i].id == d {
                proof {
                    lemma_keyed_index(s, i as int);
                }
                return Some(i);
            }
            i += 1;
        }
        proof {
            if has_key(s, d) {
                let j = choose|j: int| 0 <= j < s.len() && #[trigger] s[j].0 == d;
                assert(self.devices@[j].id == d);
            }
        }
        None
    }

    /// Fetches house `house_id`.
    pub fn get_house(&self, house_id: i32) -> (r: DataResult<House>)
        requires
            self.wf(),
        ensures
            result_view(r) == self@.get_house(house_id),
    {
        match self.find_house(house_id) {
            Some(i) => Ok(House { id: Some(house_id), name: self.houses[i].name.clone() }),
            None => Err(not_found("house")),
        }
    }

    /// Inserts a house under the next identifier and returns it as stored.
    pub fn create_house(&mut self, data: &House) -> (r: DataResult<House>)
        requires
            old(self).wf(),
        ensures
            final(self).wf(),
            (final(self)@, result_view(r)) == old(self)@.create_house(data@),
    {
        if self.next_house == MAX_ID {
            return Err(internal("house identifiers are used up"));
        }
        let k = self.next_house;
        let ghost s = house_entries(self.houses@);
        let row = HouseRow { id: k, name: data.name.clone() };
        proof {
            if has_key(s, k) {
                let j = choose|j: int| 0 <= j < s.len() && #[trigger] s[j].0 == k;
                lemma_keyed_index(s, j);
                assert(self@.houses.contains_key(k));
            }
            lemma_keyed_push(s, house_entry(row));
        }
        self.houses.push(row);
        self.next_house = k + 1;
        proof {
            assert(house_entries(self.houses@) =~= s.push(house_entry(row)));
            assert(self@.houses == old(self)@.houses.insert(k, data.name@));
            assert(self@.rooms == old(self)@.rooms);
            assert(self@.devices == old(self)@.devices);
        }
        self.get_house(k)
    }

    /// House row `i` as a record.
    fn house_record(&self, i: usize) -> (r: House)
        requires
            self.wf(),
            i < self.houses@.len(),
        ensures
            r@ == self@.house_rec(self.houses@[i as int].id),
    {
        proof {
            lemma_keyed_index(house_entries(self.houses@), i as int);
        }
        House { id: Some(self.houses[i].id), name: self.houses[i].name.clone() }
    }

    /// Room row `i` as a record, its house's name joined in.
    fn room_record(&self, i: usize) -> (r: Room)
        requires
            self.wf(),
            i < self.rooms@.len(),
        ensures
            r@ == self@.room_rec(self.rooms@[i as int].id),
    {
        proof {
            lemma_keyed_index(room_entries(self.rooms@), i as int);
        }
        let row = &self.rooms[i];
        let h = self.find_house(row.house_id).unwrap();
        Room {
            id: Some(row.id),
            house_name: Some(self.houses[h].name.clone()),
            name: row.name.clone(),
        }
    }

    /// Device row `i` as a record, its room's and house's names joined in.
    fn device_record(&self, i: usize) -> (r: SmartDevice)
        requires
            self.wf(),
            i < self.devices@.len(),
        ensures
            r@ == self@.device_rec(self.devices@[i as int].id),
    {
        proof {
            lemma_keyed_index(device_entries(self.devices@), i as int);
        }
        let row = &self.devices[i];
        let h = self.find_house(row.house_id).unwrap();
        let rm = self.find_room(row.room_id).unwrap();
        SmartDevice {
            id: Some(row.id),
            house_name: Some(self.houses[h].name.clone()),
            room_name: Some(self.rooms[rm].name.clone()),
            name: Some(row.name.clone()),
            vendor_id: Some(row.vendor_id.clone()),
            is_on: Some(row.is_on),
            voltage: Some(row.voltage.clone()),
            power: Some(row.power.clone()),
        }
    }

    /// Fetches room `room_id` of house `house_id`.
    pub fn get_room(&self, room_id: i32, house_id: i32) -> (r: DataResult<Room>)
        requires
            self.wf(),
        ensures
            result_view(r) == self@.get_room(room_id, house_id),
    {
        match self.find_room(room_id) {
            Some(i) => {
                if self.rooms[i].house_id == house_id {
                    Ok(self.room_record(i))
                } else {
                    Err(not_found("room"))
                }
            },
            None => Err(not_found("room")),
        }
    }

    /// Fetches device `device_id` of room `room_id` of house `house_id`.
    pub fn get_smart_device_info(&self, house_id: i32, room_id: i32, device_id: i32) -> (r:
        DataResult<SmartDevice>)
        requires
            self.wf(),
        ensures
            result_view(r) == self@.get_smart_device_info(house_id, room_id, device_id),
    {
        match self.find_device(device_id) {
            Some(i) => {
                if self.devices[i].house_id == house_id && self.devices[i].room_id == room_id {
                    Ok(self.device_record(i))
                } else {
                    Err(not_found("device"))
                }
            },
            None => Err(not_found("device")),
        }
    }

    /// Inserts a room under house `house_id` and returns it as stored.
    pub fn create_room(&mut self, data: &Room, house_id: i32) -> (r: DataResult<Room>)
        requires
            old(self).wf(),
        ensures
            final(self).wf(),
            (final(self)@, result_view(r)) == old(self)@.create_room(data@, house_id),
    {
        if self.find_house(house_id).is_none() {
            return Err(internal("the house of the room does not exist"));
        }
        if self.next_room == MAX_ID {
            return Err(internal("room identifiers are used up"));
        }
        let k = self.next_room;
        let ghost s = room_entries(self.rooms@);
        let row = RoomRow { id: k, house_id, name: data.name.clone() };
        proof {
            if has_key(s, k) {
                let j = choose|j: int| 0 <= j < s.len() && #[trigger] s[j].0 == k;
                lemma_keyed_index(s, j);
                assert(self@.rooms.contains_key(k));
            }
            lemma_keyed_push(s, room_entry(row));
        }
        self.rooms.push(row);
        self.next_room = k + 1;
        proof {
            assert(room_entries(self.rooms@) =~= s.push(room_entry(row)));
            assert(self@.houses == old(self)@.houses);
            assert(self@.rooms == old(self)@.rooms.insert(k, room_entry(row).1));
            assert(self@.devices == old(self)@.devices);
        }
        self.get_room(k, house_id)
    }

    /// Inserts a device under room `room_id` of house `house_id` and returns
    /// it as stored.
    pub fn create_smart_device(&mut self, data: &SmartDevice, house_id: i32, room_id: i32) -> (r:
        DataResult<SmartDevice>)
        requires
            old(self).wf(),
        ensures
            final(self).wf(),
            (final(self)@, result_view(r)) == old(self)@.create_smart_device(
                data@,
                house_id,
                room_id,
            ),
    {
        match self.find_room(room_id) {
            Some(i) => {
                if self.rooms[i].house_id != house_id {
                    return Err(internal("the room of the device is not in its house"));
                }
            },
            None => {
                return Err(internal("the room of the device does not exist"));
            },
        }
        let (name, vendor_id, is_on, voltage, power) = match (
            &data.name,
            &data.vendor_id,
            data.is_on,
            &data.voltage,
            &data.power,
        ) {
            (Some(n), Some(v), Some(o), Some(vo), Some(p)) => (n, v, o, vo, p),
            _ => {
                return Err(internal("a column of the device is missing"));
            },
        };
        if self.next_device == MAX_ID {
            return Err(internal("device identifiers are used up"));
        }
        let k = self.next_device;
        let ghost s = device_entries(self.devices@);
        let row = DeviceRow {
            id: k,
            house_id,
            room_id,
            vendor_id: vendor_id.clone(),
            name: name.clone(),
            is_on,
            voltage: voltage.clone(),
            power: power.clone(),
        };
        proof {
            if has_key(s, k) {
                let j = choose|j: int| 0 <= j < s.len() && #[trigger] s[j].0 == k;
                lemma_keyed_index(s, j);
                assert(self@.devices.contains_key(k));
            }
            lemma_keyed_push(s, device_entry(row));
        }
        self.devices.push(row);
        self.next_device = k + 1;
        proof {
            assert(device_entries(self.devices@) =~= s.push(device_entry(row)));
            assert(self@.houses == old(self)@.houses);
            assert(self@.rooms == old(self)@.rooms);
            assert(self@.devices == old(self)@.devices.insert(k, device_entry(row).1));
        }
        self.get_smart_device_info(house_id, room_id, k)
    }

    /// All houses.
    pub fn get_houses(&self ) -> (r: DataResult<Vec<House>>)
        requires
            self.wf(),
        ensures
            r is Ok,
            house_views(r->Ok_0@).to_set() == self@.get_houses(),
            house_views(r->Ok_0@).no_duplicates(),
    {
        let mut out: Vec<House> = Vec::new();
        let ghost rows = self.houses@;
        let ghost ents = house_entries(rows);
        let ghost src: Seq<int> = Seq::empty();
        let mut j: usize = 0;
        while j < self.houses.len()
            invariant
                self.wf(),
                j <= rows.len(),
                rows == self.houses@,
                ents == house_entries(rows),
                src.len() == out@.len(),
                forall|a: int|
                    0 <= a < out@.len() ==> 0 <= #[trigger] src[a] < j && true
                        && out@[a]@ == self@.house_rec(rows[src[a]].id),
                forall|a: int, c: int| 0 <= a < c < out@.len() ==> src[a] < src[c],
                out@.len() == j,
                forall|a: int| 0 <= a < out@.len() ==> #[trigger] src[a] == a,
            decreases rows.len() - j,
        {
            if true {
                let rec = self.house_record(j);
                out.push(rec);
                proof {
                    src = src.push(j as int);
                }
            }
            j += 1;
        }
        proof {
            let vs = house_views(out@);
            assert forall|a: int, c: int|
                0 <= a < vs.len() && 0 <= c < vs.len() && a != c implies vs[a] != vs[c] by {
                assert(ents[src[a]].0 != ents[src[c]].0);
            }
            assert forall|v| vs.contains(v) <==> self@.get_houses().contains(v) by {
                if vs.contains(v) {
                    let a = choose|a: int| 0 <= a < vs.len() && vs[a] == v;
                    lemma_keyed_index(ents, src[a]);
                    let k = rows[src[a]].id;
                    assert(self@.houses.contains_key(k));
                }
                if self@.get_houses().contains(v) {
                    let k = choose|k: i32| self@.houses.contains_key(k) && v == self@.house_rec(k);
                    let b = choose|b: int| 0 <= b < ents.len() && #[trigger] ents[b].0 == k;
                    lemma_keyed_index(ents, b);
                    assert(true);
                    assert(src[b] == b);
                    assert(vs[b] == v);
                }
            }
            assert(vs.to_set() =~= self@.get_houses());
        }
        Ok(out)
    }

    /// All rooms of house `house_id`.
    pub fn get_rooms(&self , house_id: i32) -> (r: DataResult<Vec<Room>>)
        requires
            self.wf(),
        ensures
            r is Ok,
            room_views(r->Ok_0@).to_set() == self@.get_rooms(house_id),
            room_views(r->Ok_0@).no_duplicates(),
    {
        let mut out: Vec<Room> = Vec::new();
        let ghost rows = self.rooms@;
        let ghost ents = room_entries(rows);
        let ghost src: Seq<int> = Seq::empty();
        let mut j: usize = 0;
        while j < self.rooms.len()
            invariant
                self.wf(),
                j <= rows.len(),
                rows == self.rooms@,
                ents == room_entries(rows),
                src.len() == out@.len(),
                forall|a: int|
                    0 <= a < out@.len() ==> 0 <= #[trigger] src[a] < j && rows[src[a]].house_id == house_id
                        && out@[a]@ == self@.room_rec(rows[src[a]].id),
                forall|a: int, c: int| 0 <= a < c < out@.len() ==> src[a] < src[c],
                forall|b: int|
                    0 <= b < j && #[trigger] rows[b].house_id == house_id ==> exists|a: int|
                        0 <= a < out@.len() && src[a] == b,
            decreases rows.len() - j,
        {
            let ghost src0 = src;
            let ghost n0 = out@.len();
            if self.rooms[j].house_id == house_id {
                let rec = self.room_record(j);
                out.push(rec);
                proof {
                    src = src.push(j as int);
                }
            }
            proof {
                assert forall|b: int| 0 <= b <= j && #[trigger] rows[b].house_id == house_id implies exists|a: int|
                    0 <= a < out@.len() && src[a] == b by {
                    if b < j {
                        let a = choose|a: int| 0 <= a < n0 && src0[a] == b;
                        assert(src[a] == b);
                    } else {
                        assert(src[n0 as int] == b);
                    }
                }
            }
            j += 1;
        }
        proof {
            let vs = room_views(out@);
            assert forall|a: int, c: int|
                0 <= a < vs.len() && 0 <= c < vs.len() && a != c implies vs[a] != vs[c] by {
                assert(ents[src[a]].0 != ents[src[c]].0);
            }
            assert forall|v| vs.contains(v) <==> self@.get_rooms(house_id).contains(v) by {
                if vs.contains(v) {
                    let a = choose|a: int| 0 <= a < vs.len() && vs[a] == v;
                    lemma_keyed_index(ents, src[a]);
                    let k = rows[src[a]].id;
                    assert(self@.room_in(house_id, k));
                }
                if self@.get_rooms(house_id).contains(v) {
                    let k = choose|k: i32| self@.room_in(house_id, k) && v == self@.room_rec(k);
                    let b = choose|b: int| 0 <= b < ents.len() && #[trigger] ents[b].0 == k;
                    lemma_keyed_index(ents, b);
                    assert(rows[b].house_id == house_id);
                    let a = choose|a: int| 0 <= a < out@.len() && src[a] == b;
                    assert(vs[a] == v);
                }
            }
            assert(vs.to_set() =~= self@.get_rooms(house_id));
        }
        Ok(out)
    }

    /// All devices of house `house_id`, across its rooms.
    pub fn get_house_smart_devices_info(&self , house_id: i32) -> (r: DataResult<Vec<SmartDevice>>)
        requires
            self.wf(),
        ensures
            r is Ok,
            device_views(r->Ok_0@).to_set() == self@.get_house_smart_devices_info(house_id),
            device_views(r->Ok_0@).no_duplicates(),
    {
        let mut out: Vec<SmartDevice> = Vec::new();
        let ghost rows = self.devices@;
        let ghost ents = device_entries(rows);
        let ghost src: Seq<int> = Seq::empty();
        let mut j: usize = 0;
        while j < self.devices.len()
            invariant
                self.wf(),
                j <= rows.len(),
                rows == self.devices@,
                ents == device_entries(rows),
                src.len() == out@.len(),
                forall|a: int|
                    0 <= a < out@.len() ==> 0 <= #[trigger] src[a] < j && rows[src[a]].house_id == house_id
                        && out@[a]@ == self@.device_rec(rows[src[a]].id),
                forall|a: int, c: int| 0 <= a < c < out@.len() ==> src[a] < src[c],
                forall|b: int|
                    0 <= b < j && #[trigger] rows[b].house_id == house_id ==> exists|a: int|
                        0 <= a < out@.len() && src[a] == b,
            decreases rows.len() - j,
        {
            let ghost src0 = src;
            let ghost n0 = out@.len();
            if self.devices[j].house_id == house_id {
                let rec = self.device_record(j);
                out.push(rec);
                proof {
                    src = src.push(j as int);
                }
            }
            proof {
                assert forall|b: int| 0 <= b <= j && #[trigger] rows[b].house_id == house_id implies exists|a: int|
                    0 <= a < out@.len() && src[a] == b by {
                    if b < j {
                        let a = choose|a: int| 0 <= a < n0 && src0[a] == b;
                        assert(src[a] == b);
                    } else {
                        assert(src[n0 as int] == b);
                    }
                }
            }
            j += 1;
        }
        proof {
            let vs = device_views(out@);
            assert forall|a: int, c: int|
                0 <= a < vs.len() && 0 <= c < vs.len() && a != c implies vs[a] != vs[c] by {
                assert(ents[src[a]].0 != ents[src[c]].0);
            }
            assert forall|v| vs.contains(v) <==> self@.get_house_smart_devices_info(house_id).contains(v) by {
                if vs.contains(v) {
                    let a = choose|a: int| 0 <= a < vs.len() && vs[a] == v;
                    lemma_keyed_index(ents, src[a]);
                    let k = rows[src[a]].id;
                    assert(self@.devices.contains_key(k) && self@.devices[k].house_id == house_id);
                }
                if self@.get_house_smart_devices_info(house_id).contains(v) {
                    let k = choose|k: i32| self@.devices.contains_key(k) && self@.devices[k].house_id == house_id && v == self@.device_rec(k);
                    let b = choose|b: int| 0 <= b < ents.len() && #[trigger] ents[b].0 == k;
                    lemma_keyed_index(ents, b);
                    assert(rows[b].house_id == house_id);
                    let a = choose|a: int| 0 <= a < out@.len() && src[a] == b;
                    assert(vs[a] == v);
                }
            }
            assert(vs.to_set() =~= self@.get_house_smart_devices_info(house_id));
        }
        Ok(out)
    }

    /// All devices of room `room_id` of house `house_id`.
    pub fn get_room_smart_devices_info(&self , house_id: i32, room_id: i32) -> (r: DataResult<Vec<SmartDevice>>)
        requires
            self.wf(),
        ensures
            r is Ok,
            device_views(r->Ok_0@).to_set() == self@.get_room_smart_devices_info(house_id, room_id),
            device_views(r->Ok_0@).no_duplicates(),
    {
        let mut out: Vec<SmartDevice> = Vec::new();
        let ghost rows = self.devices@;
        let ghost ents = device_entries(rows);
        let ghost src: Seq<int> = Seq::empty();
        let mut j: usize = 0;
        while j < self.devices.len()
            invariant
                self.wf(),
                j <= rows.len(),
                rows == self.devices@,
                ents == device_entries(rows),
                src.len() == out@.len(),
                forall|a: int|
                    0 <= a < out@.len() ==> 0 <= #[trigger] src[a] < j && in_room(house_id, room_id, rows[src[a]])
                        && out@[a]@ == self@.device_rec(rows[src[a]].id),
                forall|a: int, c: int| 0 <= a < c < out@.len() ==> src[a] < src[c],
                forall|b: int|
                    0 <= b < j && in_room(house_id, room_id, #[trigger] rows[b]) ==> exists|a: int|
                        0 <= a < out@.len() && src[a] == b,
            decreases rows.len() - j,
        {
            let ghost src0 = src;
            let ghost n0 = out@.len();
            if self.devices[j].house_id == house_id && self.devices[j].room_id == room_id {
                let rec = self.device_record(j);
                out.push(rec);
                proof {
                    src = src.push(j as int);
                }
            }
            proof {
                assert forall|b: int| 0 <= b <= j && #[trigger] in_room(house_id, room_id, rows[b]) implies exists|a: int|
                    0 <= a < out@.len() && src[a] == b by {
                    if b < j {
                        let a = choose|a: int| 0 <= a < n0 && src0[a] == b;
                        assert(src[a] == b);
                    } else {
                        assert(src[n0 as int] == b);
                    }
                }
            }
            j += 1;
        }
        proof {
            let vs = device_views(out@);
            assert forall|a: int, c: int|
                0 <= a < vs.len() && 0 <= c < vs.len() && a != c implies vs[a] != vs[c] by {
                assert(ents[src[a]].0 != ents[src[c]].0);
            }
            assert forall|v| vs.contains(v) <==> self@.get_room_smart_devices_info(house_id, room_id).contains(v) by {
                if vs.contains(v) {
                    let a = choose|a: int| 0 <= a < vs.len() && vs[a] == v;
                    lemma_keyed_index(ents, src[a]);
                    let k = rows[src[a]].id;
                    assert(self@.device_in(house_id, room_id, k));
                }
                if self@.get_room_smart_devices_info(house_id, room_id).contains(v) {
                    let k = choose|k: i32| self@.device_in(house_id, room_id, k) && v == self@.device_rec(k);
                    let b = choose|b: int| 0 <= b < ents.len() && #[trigger] ents[b].0 == k;
                    lemma_keyed_index(ents, b);
                    assert(in_room(house_id, room_id, rows[b]));
                    let a = choose|a: int| 0 <= a < out@.len() && src[a] == b;
                    assert(vs[a] == v);
                }
            }
            assert(vs.to_set() =~= self@.get_room_smart_devices_info(house_id, room_id));
        }
        Ok(out)
    }

    /// Renames house `house_id` to `data.name` and returns it as stored.
    pub fn update_house_name(&mut self, house_id: i32, data: &SmartDevice) -> (r: DataResult<House>)
        requires
            old(self).wf(),
        ensures
            final(self).wf(),
            (final(self)@, result_view(r)) == old(self)@.update_house_name(house_id, data@),
    {
        let i = match self.find_house(house_id) {
            Some(i) => i,
            None => {
                return Err(not_found("house"));
            },
        };
        let name = match &data.name {
            Some(n) => n.clone(),
            None => {
                return Err(internal("the new name of the house is missing"));
            },
        };
        let ghost s = house_entries(self.houses@);
        proof {
            lemma_keyed_update(s, i as int, name@);
        }
        self.houses[i].name = name;
        proof {
            assert(house_entries(self.houses@) =~= s.update(i as int, (house_id, name@)));
            assert(self@.houses == old(self)@.houses.insert(house_id, name@));
            assert(self@.rooms == old(self)@.rooms);
            assert(self@.devices == old(self)@.devices);
        }
        self.get_house(house_id)
    }

    /// Renames room `room_id` of house `house_id` to `data.name` and returns
    /// it as stored.
    pub fn update_room_name(&mut self, house_id: i32, room_id: i32, data: &SmartDevice) -> (r:
        DataResult<Room>)
        requires
            old(self).wf(),
        ensures
            final(self).wf(),
            (final(self)@, result_view(r)) == old(self)@.update_room_name(house_id, room_id, data@),
    {
        let i = match self.find_room(room_id) {
            Some(i) => i,
            None => {
                return Err(not_found("room"));
            },
        };
        if self.rooms[i].house_id != house_id {
            return Err(not_found("room"));
        }
        let name = match &data.name {
            Some(n) => n.clone(),
            None => {
                return Err(internal("the new name of the room is missing"));
            },
        };
        let ghost s = room_entries(self.rooms@);
        let ghost m = RoomModel { house_id, name: name@ };
        proof {
            lemma_keyed_update(s, i as int, m);
        }
        self.rooms[i].name = name;
        proof {
            assert(room_entries(self.rooms@) =~= s.update(i as int, (room_id, m)));
            assert(self@.houses == old(self)@.houses);
            assert(self@.rooms == old(self)@.rooms.insert(room_id, m));
            assert(self@.devices == old(self)@.devices);
        }
        self.get_room(room_id, house_id)
    }

    /// Renames device `device_id` of room `room_id` of house `house_id` to
    /// `data.name` and returns it as stored.
    pub fn update_smart_device_name(
        &mut self,
        house_id: i32,
        room_id: i32,
        device_id: i32,
        data: &SmartDevice,
    ) -> (r: DataResult<SmartDevice>)
        requires
            old(self).wf(),
        ensures
            final(self).wf(),
            (final(self)@, result_view(r)) == old(self)@.update_smart_device_name(
                house_id,
                room_id,
                device_id,
                data@,
            ),
    {
        let i = match self.find_device(device_id) {
            Some(i) => i,
            None => {
                return Err(not_found("device"));
            },
        };
        if self.devices[i].house_id != house_id || self.devices[i].room_id != room_id {
            return Err(not_found("device"));
        }
        let name = match &data.name {
            Some(n) => n.clone(),
            None => {
                return Err(internal("the new name of the device is missing"));
            },
        };
        let ghost s = device_entries(self.devices@);
        let ghost m = DeviceModel { name: name@, ..s[i as int].1 };
        proof {
            lemma_keyed_update(s, i as int, m);
        }
        self.devices[i].name = name;
        proof {
            assert(device_entries(self.devices@) =~= s.update(i as int, (device_id, m)));
            assert(self@.houses == old(self)@.houses);
            assert(self@.rooms == old(self)@.rooms);
            assert(self@.devices == old(self)@.devices.insert(device_id, m));
        }
        self.get_smart_device_info(house_id, room_id, device_id)
    }

    /// Rewrites the on/off state, voltage and power of device `device_id` of
    /// room `room_id` of house `house_id` and returns it as stored.
    pub fn update_smart_device_info(
        &mut self,
        house_id: i32,
        room_id: i32,
        device_id: i32,
        data: &SmartDevice,
    ) -> (r: DataResult<SmartDevice>)
        requires
            old(self).wf(),
        ensures
            final(self).wf(),
            (final(self)@, result_view(r)) == old(self)@.update_smart_device_info(
                house_id,
                room_id,
                device_id,
                data@,
            ),
    {
        let i = match self.find_device(device_id) {
            Some(i) => i,
            None => {
                return Err(not_found("device"));
            },
        };
        if self.devices[i].house_id != house_id || self.devices[i].room_id != room_id {
            return Err(not_found("device"));
        }
        let (is_on, voltage, power) = match (data.is_on, &data.voltage, &data.power) {
            (Some(o), Some(v), Some(p)) => (o, v.clone(), p.clone()),
            _ => {
                return Err(internal("a status column of the device is missing"));
            },
        };
        let ghost s = device_entries(self.devices@);
        let ghost m = DeviceModel { is_on, voltage: voltage@, power: power@, ..s[i as int].1 };
        proof {
            lemma_keyed_update(s, i as int, m);
        }
        self.devices[i].is_on = is_on;
        self.devices[i].voltage = voltage;
        self.devices[i].power = power;
        proof {
            assert(device_entries(self.devices@) =~= s.update(i as int, (device_id, m)));
            assert(self@.houses == old(self)@.houses);
            assert(self@.rooms == old(self)@.rooms);
            assert(self@.devices == old(self)@.devices.insert(device_id, m));
        }
        self.get_smart_device_info(house_id, room_id, device_id)
    }

    /// Deletes device `device_id` of room `room_id` of house `house_id`,
    /// returning it as it was.
    pub fn delete_smart_device(&mut self, house_id: i32, room_id: i32, device_id: i32) -> (r:
        DataResult<SmartDevice>)
        requires
            old(self).wf(),
        ensures
            final(self).wf(),
            (final(self)@, result_view(r)) == old(self)@.delete_smart_device(
                house_id,
                room_id,
                device_id,
            ),
    {
        let device = match self.get_smart_device_info(house_id, room_id, device_id) {
            Ok(d) => d,
            Err(e) => {
                return Err(e);
            },
        };
        let i = self.find_device(device_id).unwrap();
        let ghost s = device_entries(self.devices@);
        proof {
            lemma_keyed_remove(s, i as int);
        }
        self.devices.remove(i);
        proof {
            assert(device_entries(self.devices@) =~= s.remove(i as int));
            assert(self@.houses == old(self)@.houses);
            assert(self@.rooms == old(self)@.rooms);
            assert(self@.devices == old(self)@.devices.remove(device_id));
        }
        Ok(device)
    }

    /// Deletes room `room_id` of house `house_id` together with its devices,
    /// returning the room as it was.
    pub fn delete_room(&mut self, house_id: i32, room_id: i32) -> (r: DataResult<Room>)
        requires
            old(self).wf(),
        ensures
            final(self).wf(),
            (final(self)@, result_view(r)) == old(self)@.delete_room(house_id, room_id),
    {
        let room = match self.get_room(room_id, house_id) {
            Ok(rm) => rm,
            Err(e) => {
                return Err(e);
            },
        };
        let i = self.find_room(room_id).unwrap();
        let ghost s = room_entries(self.rooms@);
        proof {
            lemma_keyed_remove(s, i as int);
        }
        self.devices = devices_outside_room(&self.devices, room_id);
        self.rooms.remove(i);
        proof {
            assert(room_entries(self.rooms@) =~= s.remove(i as int));
            let m = self@;
            let m0 = old(self)@;
            assert(m.houses == m0.houses);
            assert(m.rooms == m0.rooms.remove(room_id));
            assert(m.devices == keep_where(m0.devices, device_outside_room(room_id)));
            assert forall|k: i32| #[trigger] m.devices.contains_key(k) implies 1 <= k
                < m.next_device && m.room_in(m.devices[k].house_id, m.devices[k].room_id) by {
                assert(m0.devices.contains_key(k));
            }
        }
        Ok(room)
    }

    /// Deletes house `house_id` together with its rooms and devices,
    /// returning the house as it was.
    pub fn delete_house(&mut self, house_id: i32) -> (r: DataResult<House>)
        requires
            old(self).wf(),
        ensures
            final(self).wf(),
            (final(self)@, result_view(r)) == old(self)@.delete_house(house_id),
    {
        let house = match self.get_house(house_id) {
            Ok(h) => h,
            Err(e) => {
                return Err(e);
            },
        };
        let i = self.find_house(house_id).unwrap();
        let ghost s = house_entries(self.houses@);
        proof {
            lemma_keyed_remove(s, i as int);
        }
        self.devices = devices_outside_house(&self.devices, house_id);
        self.rooms = rooms_outside_house(&self.rooms, house_id);
        self.houses.remove(i);
        proof {
            assert(house_entries(self.houses@) =~= s.remove(i as int));
            let m = self@;
            let m0 = old(self)@;
            assert(m.houses == m0.houses.remove(house_id));
            assert(m.rooms == keep_where(m0.rooms, room_outside_house(house_id)));
            assert(m.devices == keep_where(m0.devices, device_outside_house(house_id)));
            assert forall|k: i32| #[trigger] m.rooms.contains_key(k) implies 1 <= k < m.next_room
                && m.houses.contains_key(m.rooms[k].house_id) by {
                assert(m0.rooms.contains_key(k));
            }
            assert forall|k: i32| #[trigger] m.devices.contains_key(k) implies 1 <= k
                < m.next_device && m.room_in(m.devices[k].house_id, m.devices[k].room_id) by {
                assert(m0.devices.contains_key(k));
                assert(m0.rooms.contains_key(m0.devices[k].room_id));
            }
        }
        Ok(house)
    }
}

} // verus!
