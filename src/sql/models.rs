//! The entity records handed in and out of the data-access layer. Fields
//! that a request may leave out are optional.
use vstd::prelude::*;

verus! {

/// An optional string as an optional sequence of characters.
pub open spec fn opt_view(o: Option<String>) -> Option<Seq<char>> {
    match o {
        Some(s) => Some(s@),
        None => None,
    }
}

/// The views of a list of devices.
pub open spec fn device_views(s: Seq<SmartDevice>) -> Seq<DeviceView> {
    s.map_values(|d: SmartDevice| d@)
}

/// The views of a list of rooms.
pub open spec fn room_views(s: Seq<Room>) -> Seq<RoomView> {
    s.map_values(|r: Room| r@)
}

/// The views of a list of houses.
pub open spec fn house_views(s: Seq<House>) -> Seq<HouseView> {
    s.map_values(|h: House| h@)
}

/// A smart device, with the names of its room and house joined in.
#[derive(Debug)]
pub struct SmartDevice {
    pub id: Option<i32>,
    pub house_name: Option<String>,
    pub room_name: Option<String>,
    pub name: Option<String>,
    pub vendor_id: Option<String>,
    pub is_on: Option<bool>,
    pub voltage: Option<String>,
    pub power: Option<String>,
}

pub struct DeviceView {
    pub id: Option<i32>,
    pub house_name: Option<Seq<char>>,
    pub room_name: Option<Seq<char>>,
    pub name: Option<Seq<char>>,
    pub vendor_id: Option<Seq<char>>,
    pub is_on: Option<bool>,
    pub voltage: Option<Seq<char>>,
    pub power: Option<Seq<char>>,
}

impl View for SmartDevice {
    type V = DeviceView;

    open spec fn view(&self) -> DeviceView {
        DeviceView {
            id: self.id,
            house_name: opt_view(self.house_name),
            room_name: opt_view(self.room_name),
            name: opt_view(self.name),
            vendor_id: opt_view(self.vendor_id),
            is_on: self.is_on,
            voltage: opt_view(self.voltage),
            power: opt_view(self.power),
        }
    }
}

/// A room, with the name of its house joined in.
#[derive(Debug)]
pub struct Room {
    pub id: Option<i32>,
    pub house_name: Option<String>,
    pub name: String,
}

pub struct RoomView {
    pub id: Option<i32>,
    pub house_name: Option<Seq<char>>,
    pub name: Seq<char>,
}

impl View for Room {
    type V = RoomView;

    open spec fn view(&self) -> RoomView {
        RoomView { id: self.id, house_name: opt_view(self.house_name), name: self.name@ }
    }
}

/// A house.
#[derive(Debug, Clone)]
pub struct House {
    pub id: Option<i32>,
    pub name: String,
}

pub struct HouseView {
    pub id: Option<i32>,
    pub name: Seq<char>,
}

impl View for House {
    type V = HouseView;

    open spec fn view(&self) -> HouseView {
        HouseView { id: self.id, name: self.name@ }
    }
}

} // verus!
