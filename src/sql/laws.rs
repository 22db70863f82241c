//! Laws that relate the data-access operations to one another, stated over
//! the relational model that their contracts speak of.
use vstd::prelude::*;
use crate::errors::ErrorKind;
use crate::sql::models::{DeviceView, HouseView, RoomView};
use crate::sql::schema::DbModel;

verus! {

/// A house that was just created reads back exactly as creation returned
/// it, under its new identifier and with the name it was given.
pub proof fn law_house_round_trip(db: DbModel, data: HouseView)
    requires
        db.wf(),
        db.create_house(data).1 is Ok,
    ensures
        ({
            let (db2, r) = db.create_house(data);
            &&& r->Ok_0.id == Some(db.next_house)
            &&& r->Ok_0.name == data.name
            &&& db2.get_house(db.next_house) == r
        }),
{
}

/// A house that was just created lists no rooms.
pub proof fn law_new_house_has_no_rooms(db: DbModel, data: HouseView)
    requires
        db.wf(),
        db.create_house(data).1 is Ok,
    ensures
        db.create_house(data).0.get_rooms(db.next_house) == Set::<RoomView>::empty(),
{
    let db2 = db.create_house(data).0;
    assert forall|v: RoomView| !db2.get_rooms(db.next_house).contains(v) by {
        if db2.get_rooms(db.next_house).contains(v) {
            let k = choose|k: i32| db2.room_in(db.next_house, k) && v == db2.room_rec(k);
            assert(db.rooms.contains_key(k));
        }
    }
    assert(db2.get_rooms(db.next_house) =~= Set::<RoomView>::empty());
}

/// Creating a room under house `h` adds exactly that room to the listing of
/// `h`, and leaves the listing of every other house as it was.
pub proof fn law_room_listing_after_create(db: DbModel, data: RoomView, h: i32, other: i32)
    requires
        db.wf(),
        db.create_room(data, h).1 is Ok,
    ensures
        ({
            let (db2, r) = db.create_room(data, h);
            &&& db2.get_rooms(h) == db.get_rooms(h).insert(r->Ok_0)
            &&& other != h ==> db2.get_rooms(other) == db.get_rooms(other)
        }),
{
    let (db2, r) = db.create_room(data, h);
    let n = db.next_room;
    assert forall|g: i32, k: i32| #[trigger] db.room_in(g, k) implies db2.room_in(g, k)
        && db2.room_rec(k) == db.room_rec(k) by {
        assert(k != n);
    }
    assert forall|v: RoomView| #[trigger] db2.get_rooms(h).contains(v) <==> db.get_rooms(h).insert(
        r->Ok_0,
    ).contains(v) by {
        if db2.get_rooms(h).contains(v) {
            let k = choose|k: i32| db2.room_in(h, k) && v == db2.room_rec(k);
            if k != n {
                assert(db.room_in(h, k));
            }
        }
        if db.get_rooms(h).contains(v) {
            let k = choose|k: i32| db.room_in(h, k) && v == db.room_rec(k);
            assert(db2.room_in(h, k));
        }
        if v == r->Ok_0 {
            assert(db2.room_in(h, n));
        }
    }
    assert(db2.get_rooms(h) =~= db.get_rooms(h).insert(r->Ok_0));
    if other != h {
        assert forall|v: RoomView| #[trigger] db2.get_rooms(other).contains(v)
            <==> db.get_rooms(other).contains(v) by {
            if db2.get_rooms(other).contains(v) {
                let k = choose|k: i32| db2.room_in(other, k) && v == db2.room_rec(k);
                assert(db.room_in(other, k));
            }
            if db.get_rooms(other).contains(v) {
                let k = choose|k: i32| db.room_in(other, k) && v == db.room_rec(k);
                assert(db2.room_in(other, k));
            }
        }
        assert(db2.get_rooms(other) =~= db.get_rooms(other));
    }
}

/// A room reads with the current name of its house: before a rename it
/// shows the old name, and after house `h` is renamed every room of `h`
/// shows the new one.
pub proof fn law_room_shows_current_house_name(db: DbModel, h: i32, r: i32, data: DeviceView)
    requires
        db.wf(),
        db.room_in(h, r),
        db.update_house_name(h, data).1 is Ok,
    ensures
        db.get_room(r, h) matches Ok(v) && v.house_name == Some(db.houses[h]),
        ({
            let db2 = db.update_house_name(h, data).0;
            db2.get_room(r, h) == Ok::<RoomView, ErrorKind>(
                RoomView { id: Some(r), house_name: data.name, name: db.rooms[r].name },
            )
        }),
{
}

/// Deleting a house returns it as it was just before, and afterwards it,
/// its rooms and its devices are not found.
pub proof fn law_delete_house_snapshot(db: DbModel, h: i32, r: i32, d: i32)
    requires
        db.wf(),
    ensures
        db.delete_house(h).1 == db.get_house(h),
        db.get_house(h) is Ok ==> {
            let db2 = db.delete_house(h).0;
            &&& db2.get_house(h) == Err::<HouseView, ErrorKind>(ErrorKind::NotFound)
            &&& db2.get_room(r, h) == Err::<RoomView, ErrorKind>(ErrorKind::NotFound)
            &&& db2.get_smart_device_info(h, r, d) == Err::<DeviceView, ErrorKind>(
                ErrorKind::NotFound,
            )
        },
{
}

/// Deleting a room returns it as it was just before, and afterwards it and
/// its devices are not found.
pub proof fn law_delete_room_snapshot(db: DbModel, h: i32, r: i32, d: i32)
    requires
        db.wf(),
    ensures
        db.delete_room(h, r).1 == db.get_room(r, h),
        db.get_room(r, h) is Ok ==> {
            let db2 = db.delete_room(h, r).0;
            &&& db2.get_room(r, h) == Err::<RoomView, ErrorKind>(ErrorKind::NotFound)
            &&& db2.get_smart_device_info(h, r, d) == Err::<DeviceView, ErrorKind>(
                ErrorKind::NotFound,
            )
        },
{
}

/// Deleting a device returns it as it was just before, and afterwards it is
/// not found.
pub proof fn law_delete_device_snapshot(db: DbModel, h: i32, r: i32, d: i32)
    requires
        db.wf(),
    ensures
        db.delete_smart_device(h, r, d).1 == db.get_smart_device_info(h, r, d),
        db.get_smart_device_info(h, r, d) is Ok ==> db.delete_smart_device(
            h,
            r,
            d,
        ).0.get_smart_device_info(h, r, d) == Err::<DeviceView, ErrorKind>(ErrorKind::NotFound),
{
}

/// On a house identifier that resolves to no house, reading, renaming and
/// deleting fail with `NotFound` and change nothing.
pub proof fn law_missing_house(db: DbModel, h: i32, data: DeviceView)
    requires
        !db.houses.contains_key(h),
    ensures
        db.get_house(h) == Err::<HouseView, ErrorKind>(ErrorKind::NotFound),
        db.update_house_name(h, data) == (db, Err::<HouseView, ErrorKind>(ErrorKind::NotFound)),
        db.delete_house(h) == (db, Err::<HouseView, ErrorKind>(ErrorKind::NotFound)),
{
}

/// On a room identifier that resolves to no room of house `h`, reading,
/// renaming and deleting fail with `NotFound` and change nothing.
pub proof fn law_missing_room(db: DbModel, h: i32, r: i32, data: DeviceView)
    requires
        !db.room_in(h, r),
    ensures
        db.get_room(r, h) == Err::<RoomView, ErrorKind>(ErrorKind::NotFound),
        db.update_room_name(h, r, data) == (db, Err::<RoomView, ErrorKind>(ErrorKind::NotFound)),
        db.delete_room(h, r) == (db, Err::<RoomView, ErrorKind>(ErrorKind::NotFound)),
{
}

/// On a device identifier that resolves to no device of room `r` of house
/// `h`, reading, both updates and deleting fail with `NotFound` and change
/// nothing.
pub proof fn law_missing_device(db: DbModel, h: i32, r: i32, d: i32, data: DeviceView)
    requires
        !db.device_in(h, r, d),
    ensures
        db.get_smart_device_info(h, r, d) == Err::<DeviceView, ErrorKind>(ErrorKind::NotFound),
        db.update_smart_device_info(h, r, d, data) == (db, Err::<DeviceView, ErrorKind>(
            ErrorKind::NotFound,
        )),
        db.update_smart_device_name(h, r, d, data) == (db, Err::<DeviceView, ErrorKind>(
            ErrorKind::NotFound,
        )),
        db.delete_smart_device(h, r, d) == (db, Err::<DeviceView, ErrorKind>(ErrorKind::NotFound)),
{
}

} // verus!
