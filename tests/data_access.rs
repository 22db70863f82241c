use smart_home::errors::{DataError, ErrorKind};
use smart_home::sql::models::{House, Room, SmartDevice};
use smart_home::sql::DB;

fn house(name: &str) -> House {
    House { id: None, name: name.to_string() }
}

fn room(name: &str) -> Room {
    Room { id: None, house_name: None, name: name.to_string() }
}

fn named(name: &str) -> SmartDevice {
    SmartDevice {
        id: None,
        house_name: None,
        room_name: None,
        name: Some(name.to_string()),
        vendor_id: None,
        is_on: None,
        voltage: None,
        power: None,
    }
}

fn socket() -> SmartDevice {
    SmartDevice {
        id: None,
        house_name: None,
        room_name: None,
        name: Some("Smart Socket".to_string()),
        vendor_id: Some("WE23_134".to_string()),
        is_on: Some(true),
        voltage: Some("220".to_string()),
        power: Some("2A".to_string()),
    }
}

fn kind<T>(r: &Result<T, DataError>) -> Option<ErrorKind> {
    match r {
        Ok(_) => None,
        Err(e) => Some(e.kind()),
    }
}

fn home_with_socket() -> DB {
    let mut db = DB::new();
    let h = db.create_house(&house("My Home")).unwrap();
    assert_eq!(h.id, Some(1));
    assert_eq!(h.name, "My Home");
    let r = db.create_room(&room("Dinner"), 1).unwrap();
    assert_eq!(r.id, Some(1));
    assert_eq!(r.house_name.as_deref(), Some("My Home"));
    assert_eq!(r.name, "Dinner");
    let d = db.create_smart_device(&socket(), 1, 1).unwrap();
    assert_eq!(d.id, Some(1));
    db
}

#[test]
fn device_reads_back_with_joined_names() {
    let db = home_with_socket();
    let d = db.get_smart_device_info(1, 1, 1).unwrap();
    assert_eq!(d.id, Some(1));
    assert_eq!(d.house_name.as_deref(), Some("My Home"));
    assert_eq!(d.room_name.as_deref(), Some("Dinner"));
    assert_eq!(d.name.as_deref(), Some("Smart Socket"));
    assert_eq!(d.vendor_id.as_deref(), Some("WE23_134"));
    assert_eq!(d.is_on, Some(true));
    assert_eq!(d.voltage.as_deref(), Some("220"));
    assert_eq!(d.power.as_deref(), Some("2A"));
}

#[test]
fn renamed_house_shows_in_room() {
    let mut db = home_with_socket();
    let h = db.update_house_name(1, &named("New Home")).unwrap();
    assert_eq!(h.name, "New Home");
    let r = db.get_room(1, 1).unwrap();
    assert_eq!(r.house_name.as_deref(), Some("New Home"));
    let d = db.get_smart_device_info(1, 1, 1).unwrap();
    assert_eq!(d.house_name.as_deref(), Some("New Home"));
}

#[test]
fn deleting_room_deletes_its_devices() {
    let mut db = home_with_socket();
    let r = db.delete_room(1, 1).unwrap();
    assert_eq!(r.name, "Dinner");
    assert_eq!(kind(&db.get_room(1, 1)), Some(ErrorKind::NotFound));
    assert_eq!(kind(&db.get_smart_device_info(1, 1, 1)), Some(ErrorKind::NotFound));
    assert!(db.get_room_smart_devices_info(1, 1).unwrap().is_empty());
    assert!(db.get_house_smart_devices_info(1).unwrap().is_empty());
    assert!(db.get_house(1).is_ok());
}

#[test]
fn house_round_trip() {
    let mut db = DB::new();
    let created = db.create_house(&house("Cabin")).unwrap();
    let fetched = db.get_house(created.id.unwrap()).unwrap();
    assert_eq!(fetched.id, created.id);
    assert_eq!(fetched.name, created.name);
    assert_eq!(fetched.name, "Cabin");
}

#[test]
fn identifiers_are_not_reused() {
    let mut db = DB::new();
    db.create_house(&house("A")).unwrap();
    db.delete_house(1).unwrap();
    let b = db.create_house(&house("B")).unwrap();
    assert_eq!(b.id, Some(2));
}

#[test]
fn rooms_listing_is_scoped_to_house() {
    let mut db = DB::new();
    db.create_house(&house("A")).unwrap();
    db.create_house(&house("B")).unwrap();
    assert!(db.get_rooms(1).unwrap().is_empty());
    db.create_room(&room("Kitchen"), 1).unwrap();
    db.create_room(&room("Hall"), 2).unwrap();
    db.create_room(&room("Bath"), 1).unwrap();
    let mut names: Vec<String> = db.get_rooms(1).unwrap().into_iter().map(|r| r.name).collect();
    names.sort();
    assert_eq!(names, vec!["Bath".to_string(), "Kitchen".to_string()]);
    let b = db.get_rooms(2).unwrap();
    assert_eq!(b.len(), 1);
    assert_eq!(b[0].house_name.as_deref(), Some("B"));
    assert_eq!(db.get_houses().unwrap().len(), 2);
}

#[test]
fn device_listings_by_house_and_room() {
    let mut db = home_with_socket();
    db.create_room(&room("Bedroom"), 1).unwrap();
    db.create_smart_device(&socket(), 1, 2).unwrap();
    db.create_smart_device(&socket(), 1, 2).unwrap();
    assert_eq!(db.get_house_smart_devices_info(1).unwrap().len(), 3);
    let in_bedroom = db.get_room_smart_devices_info(1, 2).unwrap();
    assert_eq!(in_bedroom.len(), 2);
    assert!(in_bedroom.iter().all(|d| d.room_name.as_deref() == Some("Bedroom")));
    assert!(db.get_room_smart_devices_info(2, 2).unwrap().is_empty());
}

#[test]
fn delete_returns_snapshot_then_not_found() {
    let mut db = home_with_socket();
    let d = db.delete_smart_device(1, 1, 1).unwrap();
    assert_eq!(d.name.as_deref(), Some("Smart Socket"));
    assert_eq!(d.room_name.as_deref(), Some("Dinner"));
    assert_eq!(kind(&db.get_smart_device_info(1, 1, 1)), Some(ErrorKind::NotFound));
    let h = db.delete_house(1).unwrap();
    assert_eq!(h.name, "My Home");
    assert_eq!(kind(&db.get_house(1)), Some(ErrorKind::NotFound));
    assert_eq!(kind(&db.get_room(1, 1)), Some(ErrorKind::NotFound));
    assert!(db.get_houses().unwrap().is_empty());
}

#[test]
fn missing_identifiers_are_not_found() {
    let mut db = home_with_socket();
    assert_eq!(kind(&db.get_house(9)), Some(ErrorKind::NotFound));
    assert_eq!(kind(&db.update_house_name(9, &named("X"))), Some(ErrorKind::NotFound));
    assert_eq!(kind(&db.delete_house(9)), Some(ErrorKind::NotFound));
    assert_eq!(kind(&db.get_room(1, 2)), Some(ErrorKind::NotFound));
    assert_eq!(kind(&db.update_room_name(2, 1, &named("X"))), Some(ErrorKind::NotFound));
    assert_eq!(kind(&db.delete_room(2, 1)), Some(ErrorKind::NotFound));
    assert_eq!(kind(&db.get_smart_device_info(1, 2, 1)), Some(ErrorKind::NotFound));
    assert_eq!(kind(&db.update_smart_device_info(1, 1, 5, &socket())), Some(ErrorKind::NotFound));
    assert_eq!(kind(&db.update_smart_device_name(1, 1, 5, &named("X"))), Some(ErrorKind::NotFound));
    assert_eq!(kind(&db.delete_smart_device(2, 1, 1)), Some(ErrorKind::NotFound));
    assert_eq!(db.get_smart_device_info(1, 1, 1).unwrap().name.as_deref(), Some("Smart Socket"));
}

#[test]
fn broken_references_and_missing_columns_are_internal_errors() {
    let mut db = home_with_socket();
    assert_eq!(kind(&db.create_room(&room("Attic"), 7)), Some(ErrorKind::Internal));
    assert_eq!(kind(&db.create_smart_device(&socket(), 1, 7)), Some(ErrorKind::Internal));
    db.create_house(&house("Other")).unwrap();
    assert_eq!(kind(&db.create_smart_device(&socket(), 2, 1)), Some(ErrorKind::Internal));
    assert_eq!(kind(&db.create_smart_device(&named("Bare"), 1, 1)), Some(ErrorKind::Internal));
    let mut no_name = named("X");
    no_name.name = None;
    assert_eq!(kind(&db.update_house_name(1, &no_name)), Some(ErrorKind::Internal));
    assert_eq!(kind(&db.update_smart_device_info(1, 1, 1, &named("X"))), Some(ErrorKind::Internal));
    assert_eq!(db.get_house_smart_devices_info(1).unwrap().len(), 1);
}

#[test]
fn updates_read_back_whole_rows() {
    let mut db = home_with_socket();
    let mut status = socket();
    status.name = Some("ignored".to_string());
    status.is_on = Some(false);
    status.power = Some("0A".to_string());
    let d = db.update_smart_device_info(1, 1, 1, &status).unwrap();
    assert_eq!(d.name.as_deref(), Some("Smart Socket"));
    assert_eq!(d.is_on, Some(false));
    assert_eq!(d.power.as_deref(), Some("0A"));
    let d = db.update_smart_device_name(1, 1, 1, &named("Plug")).unwrap();
    assert_eq!(d.name.as_deref(), Some("Plug"));
    assert_eq!(d.is_on, Some(false));
    let r = db.update_room_name(1, 1, &named("Dining")).unwrap();
    assert_eq!(r.name, "Dining");
    assert_eq!(db.get_smart_device_info(1, 1, 1).unwrap().room_name.as_deref(), Some("Dining"));
}

#[test]
fn error_status_and_message() {
    let nf = DataError::NotFound("house".to_string());
    let ie = DataError::InternalError("broken".to_string());
    assert_eq!(nf.status_code(), 404);
    assert_eq!(ie.status_code(), 500);
    assert_eq!(nf.message(), "Endpoint is not found: house");
    assert_eq!(ie.message(), "Internal server error: broken");
}
