//! The relational state as maps from identifiers to rows, and what each
//! data-access operation does to it and returns.
//!
//! Rooms and devices carry only the identifiers of their parents; the names
//! of those parents are joined in when a record is read. Deleting a house
//! or a room deletes what it holds.
use vstd::prelude::*;
use crate::errors::ErrorKind;
use crate::sql::models::{DeviceView, HouseView, RoomView};
use crate::table::keep_where;

verus! {

/// The largest identifier the sequences hand out.
pub const MAX_ID: i32 = 2147483647;

/// A row of the rooms table.
pub struct RoomModel {
    pub house_id: i32,
    pub name: Seq<char>,
}

/// A row of the devices table.
pub struct DeviceModel {
    pub house_id: i32,
    pub room_id: i32,
    pub vendor_id: Seq<char>,
    pub name: Seq<char>,
    pub is_on: bool,
    pub voltage: Seq<char>,
    pub power: Seq<char>,
}

/// Rooms outside house `h`.
pub open spec fn room_outside_house(h: i32) -> spec_fn(RoomModel) -> bool {
    |m: RoomModel| m.house_id != h
}

/// Devices outside house `h`.
pub open spec fn device_outside_house(h: i32) -> spec_fn(DeviceModel) -> bool {
    |m: DeviceModel| m.house_id != h
}

/// Devices outside room `r`.
pub open spec fn device_outside_room(r: i32) -> spec_fn(DeviceModel) -> bool {
    |m: DeviceModel| m.room_id != r
}

/// The three tables and the next identifier of each.
pub struct DbModel {
    pub houses: Map<i32, Seq<char>>,
    pub rooms: Map<i32, RoomModel>,
    pub devices: Map<i32, DeviceModel>,
    pub next_house: i32,
    pub next_room: i32,
    pub next_device: i32,
}

impl DbModel {
    /// Identifiers are positive and below the next one to be handed out;
    /// every room's house exists; every device's room exists and lies in the
    /// device's house.
    pub open spec fn wf(self) -> bool {
        &&& 1 <= self.next_house
        &&& 1 <= self.next_room
        &&& 1 <= self.next_device
        &&& forall|k: i32| #[trigger]
            self.houses.contains_key(k) ==> 1 <= k < self.next_house
        &&& forall|k: i32| #[trigger]
            self.rooms.contains_key(k) ==> 1 <= k < self.next_room && self.houses.contains_key(
                self.rooms[k].house_id,
            )
        &&& forall|k: i32| #[trigger]
            self.devices.contains_key(k) ==> 1 <= k < self.next_device && self.room_in(
                self.devices[k].house_id,
                self.devices[k].room_id,
            )
    }

    /// No rows; every sequence starts at 1.
    pub open spec fn empty() -> DbModel {
        DbModel {
            houses: Map::empty(),
            rooms: Map::empty(),
            devices: Map::empty(),
            next_house: 1,
            next_room: 1,
            next_device: 1,
        }
    }

    /// Room `r` exists and belongs to house `h`.
    pub open spec fn room_in(self, h: i32, r: i32) -> bool {
        self.rooms.contains_key(r) && self.rooms[r].house_id == h
    }

    /// Device `d` exists and belongs to room `r` of house `h`.
    pub open spec fn device_in(self, h: i32, r: i32, d: i32) -> bool {
        self.devices.contains_key(d) && self.devices[d].house_id == h
            && self.devices[d].room_id == r
    }

    /// House `k` as a record.
    pub open spec fn house_rec(self, k: i32) -> HouseView {
        HouseView { id: Some(k), name: self.houses[k] }
    }

    /// Room `k` as a record, its house's current name joined in.
    pub open spec fn room_rec(self, k: i32) -> RoomView {
        RoomView {
            id: Some(k),
            house_name: Some(self.houses[self.rooms[k].house_id]),
            name: self.rooms[k].name,
        }
    }

    /// Device `k` as a record, its room's and house's current names joined in.
    pub open spec fn device_rec(self, k: i32) -> DeviceView {
        let d = self.devices[k];
        DeviceView {
            id: Some(k),
            house_name: Some(self.houses[d.house_id]),
            room_name: Some(self.rooms[d.room_id].name),
            name: Some(d.name),
            vendor_id: Some(d.vendor_id),
            is_on: Some(d.is_on),
            voltage: Some(d.voltage),
            power: Some(d.power),
        }
    }

    pub open spec fn get_house(self, h: i32) -> Result<HouseView, ErrorKind> {
        if self.houses.contains_key(h) {
            Ok(self.house_rec(h))
        } else {
            Err(ErrorKind::NotFound)
        }
    }

    pub open spec fn get_houses(self) -> Set<HouseView> {
        Set::new(|v: HouseView| exists|k: i32| self.houses.contains_key(k) && v == self.house_rec(k))
    }

    pub open spec fn get_room(self, r: i32, h: i32) -> Result<RoomView, ErrorKind> {
        if self.room_in(h, r) {
            Ok(self.room_rec(r))
        } else {
            Err(ErrorKind::NotFound)
        }
    }

    pub open spec fn get_rooms(self, h: i32) -> Set<RoomView> {
        Set::new(|v: RoomView| exists|k: i32| self.room_in(h, k) && v == self.room_rec(k))
    }

    pub open spec fn get_smart_device_info(self, h: i32, r: i32, d: i32) -> Result<
        DeviceView,
        ErrorKind,
    > {
        if self.device_in(h, r, d) {
            Ok(self.device_rec(d))
        } else {
            Err(ErrorKind::NotFound)
        }
    }

    pub open spec fn get_house_smart_devices_info(self, h: i32) -> Set<DeviceView> {
        Set::new(
            |v: DeviceView|
                exists|k: i32|
                    self.devices.contains_key(k) && self.devices[k].house_id == h && v
                        == self.device_rec(k),
        )
    }

    pub open spec fn get_room_smart_devices_info(self, h: i32, r: i32) -> Set<DeviceView> {
        Set::new(|v: DeviceView| exists|k: i32| self.device_in(h, r, k) && v == self.device_rec(k))
    }

    /// Inserts a house under the next identifier and reads it back; fails
    /// when the identifiers are used up.
    pub open spec fn create_house(self, data: HouseView) -> (DbModel, Result<HouseView, ErrorKind>) {
        if self.next_house == MAX_ID {
            (self, Err(ErrorKind::Internal))
        } else {
            let k = self.next_house;
            let db = DbModel {
                houses: self.houses.insert(k, data.name),
                next_house: (k + 1) as i32,
                ..self
            };
            (db, db.get_house(k))
        }
    }

    /// Inserts a room under house `h` and reads it back; fails when the
    /// house does not exist or the identifiers are used up.
    pub open spec fn create_room(self, data: RoomView, h: i32) -> (DbModel, Result<RoomView, ErrorKind>) {
        if !self.houses.contains_key(h) || self.next_room == MAX_ID {
            (self, Err(ErrorKind::Internal))
        } else {
            let k = self.next_room;
            let db = DbModel {
                rooms: self.rooms.insert(k, RoomModel { house_id: h, name: data.name }),
                next_room: (k + 1) as i32,
                ..self
            };
            (db, db.get_room(k, h))
        }
    }

    /// Every column a new device row needs is given.
    pub open spec fn device_complete(data: DeviceView) -> bool {
        data.name is Some && data.vendor_id is Some && data.is_on is Some && data.voltage is Some
            && data.power is Some
    }

    /// Inserts a device under room `r` of house `h` and reads it back; fails
    /// when that room is not in that house, a column is missing, or the
    /// identifiers are used up.
    pub open spec fn create_smart_device(self, data: DeviceView, h: i32, r: i32) -> (
        DbModel,
        Result<DeviceView, ErrorKind>,
    ) {
        if !self.room_in(h, r) || !Self::device_complete(data) || self.next_device == MAX_ID {
            (self, Err(ErrorKind::Internal))
        } else {
            let k = self.next_device;
            let row = DeviceModel {
                house_id: h,
                room_id: r,
                vendor_id: data.vendor_id->Some_0,
                name: data.name->Some_0,
                is_on: data.is_on->Some_0,
                voltage: data.voltage->Some_0,
                power: data.power->Some_0,
            };
            let db = DbModel { devices: self.devices.insert(k, row), next_device: (k + 1) as i32, ..self };
            (db, db.get_smart_device_info(h, r, k))
        }
    }

    /// Removes device `d` of room `r` of house `h`, returning it as it was.
    pub open spec fn delete_smart_device(self, h: i32, r: i32, d: i32) -> (
        DbModel,
        Result<DeviceView, ErrorKind>,
    ) {
        match self.get_smart_device_info(h, r, d) {
            Err(e) => (self, Err(e)),
            Ok(v) => (DbModel { devices: self.devices.remove(d), ..self }, Ok(v)),
        }
    }

    /// Removes room `r` of house `h` and its devices, returning the room as
    /// it was.
    pub open spec fn delete_room(self, h: i32, r: i32) -> (DbModel, Result<RoomView, ErrorKind>) {
        match self.get_room(r, h) {
            Err(e) => (self, Err(e)),
            Ok(v) => (
                DbModel {
                    rooms: self.rooms.remove(r),
                    devices: keep_where(self.devices, device_outside_room(r)),
                    ..self
                },
                Ok(v),
            ),
        }
    }

    /// Removes house `h`, its rooms and its devices, returning the house as
    /// it was.
    pub open spec fn delete_house(self, h: i32) -> (DbModel, Result<HouseView, ErrorKind>) {
        match self.get_house(h) {
            Err(e) => (self, Err(e)),
            Ok(v) => (
                DbModel {
                    houses: self.houses.remove(h),
                    rooms: keep_where(self.rooms, room_outside_house(h)),
                    devices: keep_where(self.devices, device_outside_house(h)),
                    ..self
                },
                Ok(v),
            ),
        }
    }

    /// Rewrites the on/off state, voltage and power of a device and reads it
    /// back; a missing device is not found, a missing column a fault.
    pub open spec fn update_smart_device_info(self, h: i32, r: i32, d: i32, data: DeviceView) -> (
        DbModel,
        Result<DeviceView, ErrorKind>,
    ) {
        if !self.device_in(h, r, d) {
            (self, Err(ErrorKind::NotFound))
        } else if data.is_on is None || data.voltage is None || data.power is None {
            (self, Err(ErrorKind::Internal))
        } else {
            let row = DeviceModel {
                is_on: data.is_on->Some_0,
                voltage: data.voltage->Some_0,
                power: data.power->Some_0,
                ..self.devices[d]
            };
            let db = DbModel { devices: self.devices.insert(d, row), ..self };
            (db, db.get_smart_device_info(h, r, d))
        }
    }

    /// Renames a device and reads it back.
    pub open spec fn update_smart_device_name(self, h: i32, r: i32, d: i32, data: DeviceView) -> (
        DbModel,
        Result<DeviceView, ErrorKind>,
    ) {
        if !self.device_in(h, r, d) {
            (self, Err(ErrorKind::NotFound))
        } else if data.name is None {
            (self, Err(ErrorKind::Internal))
        } else {
            let row = DeviceModel { name: data.name->Some_0, ..self.devices[d] };
            let db = DbModel { devices: self.devices.insert(d, row), ..self };
            (db, db.get_smart_device_info(h, r, d))
        }
    }

    /// Renames room `r` of house `h` and reads it back.
    pub open spec fn update_room_name(self, h: i32, r: i32, data: DeviceView) -> (
        DbModel,
        Result<RoomView, ErrorKind>,
    ) {
        if !self.room_in(h, r) {
            (self, Err(ErrorKind::NotFound))
        } else if data.name is None {
            (self, Err(ErrorKind::Internal))
        } else {
            let row = RoomModel { house_id: h, name: data.name->Some_0 };
            let db = DbModel { rooms: self.rooms.insert(r, row), ..self };
            (db, db.get_room(r, h))
        }
    }

    /// Renames house `h` and reads it back.
    pub open spec fn update_house_name(self, h: i32, data: DeviceView) -> (
        DbModel,
        Result<HouseView, ErrorKind>,
    ) {
        if !self.houses.contains_key(h) {
            (self, Err(ErrorKind::NotFound))
        } else if data.name is None {
            (self, Err(ErrorKind::Internal))
        } else {
            let db = DbModel { houses: self.houses.insert(h, data.name->Some_0), ..self };
            (db, db.get_house(h))
        }
    }
}

} // verus!
