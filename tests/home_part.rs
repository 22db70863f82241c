use smart_home::home_part::device::SmartDevice;
use smart_home::home_part::errors::CommonError;
use smart_home::home_part::home::{decimal_string, device_info_text, entry_info_text, DeviceInfo, SmartHome};
use smart_home::home_part::room::Room;

fn two_devices() -> (SmartDevice, SmartDevice) {
    let mut new_device = SmartDevice::new("Smart Socket", "WE23_134");
    let mut new_device_1 = SmartDevice::new("Smart Socket", "WE23_234");
    let stats: Vec<(&str, &str)> = vec![("voltage", "220"), ("Is_on", "true"), ("Power", "2A")];
    let stats_1: Vec<(&str, &str)> = vec![("voltage", "220"), ("Is_on", "false"), ("Power", "1A")];
    new_device.update_status_info(stats);
    new_device_1.update_status_info(stats_1);
    (new_device, new_device_1)
}

const SOCKET_STATUS: &str = "{\n  \"Is_on\": \"true\",\n  \"Power\": \"2A\",\n  \"voltage\": \"220\"\n}";
const SOCKET_1_STATUS: &str = "{\n  \"Is_on\": \"false\",\n  \"Power\": \"1A\",\n  \"voltage\": \"220\"\n}";

#[test]
fn test_create_device() {
    let mut new_device = SmartDevice::new("Smart Socket", "WE23_134");
    let mut new_device_1 = SmartDevice::new("Smart Socket", "WE23_234");
    let stats: Vec<(&str, &str)> = vec![("voltage", "220"), ("Is_on", "true"), ("Power", "2A")];
    let stats_1: Vec<(&str, &str)> = vec![("voltage", "220"), ("Is_on", "false"), ("Power", "1A")];

    new_device.update_status_info(stats);
    new_device_1.update_status_info(stats_1);
}

#[test]
fn test_create_smarthome() {
    SmartHome::new("Smart Home");
}

#[test]
fn test_update_rooms() {
    let mut smart_home = SmartHome::new("My Home");
    let (new_device, new_device_1) = two_devices();
    let mut dinner = Room::new("Dinner");
    dinner.append_room_device(&new_device);
    dinner.append_room_device(&new_device_1);
    smart_home.update_rooms(&dinner);
}

#[test]
fn test_remove_room() {
    let mut smart_home = SmartHome::new("My Home");
    let (new_device, new_device_1) = two_devices();
    let mut dinner = Room::new("Dinner");
    dinner.append_room_device(&new_device);
    dinner.append_room_device(&new_device_1);

    smart_home.remove_rooms("Dinner");
}

#[test]
fn test_get_rooms() {
    let mut smart_home = SmartHome::new("My Home");
    let (new_device, new_device_1) = two_devices();
    let mut dinner = Room::new("Dinner");
    dinner.append_room_device(&new_device);
    dinner.append_room_device(&new_device_1);
    smart_home.update_rooms(&dinner);
    smart_home.get_rooms().unwrap();
}

#[test]
fn test_get_device_info() {
    let mut smart_home = SmartHome::new("My Home");
    let (new_device, new_device_1) = two_devices();
    let mut dinner = Room::new("Dinner");
    dinner.append_room_device(&new_device);
    dinner.append_room_device(&new_device_1);
    smart_home.update_rooms(&dinner);
    let _socket = smart_home.get_device_info(&dinner, "Smart Socket/WE23_134").unwrap();
}

#[test]
#[should_panic(expected = "called `Result::unwrap()` on an `Err` value: DontExistDevice")]
fn test_get_dont_ex_device_info() {
    let mut smart_home = SmartHome::new("My Home");
    let (new_device, new_device_1) = two_devices();
    let mut dinner = Room::new("Dinner");
    dinner.append_room_device(&new_device);
    dinner.append_room_device(&new_device_1);
    smart_home.update_rooms(&dinner);
    let _thermo = smart_home.get_device_info(&dinner, "Smart Thermometr").unwrap();
}

#[test]
fn test_room_devices_info() {
    let mut smart_home = SmartHome::new("My Home");
    let (new_device, new_device_1) = two_devices();
    let mut dinner = Room::new("Dinner");
    dinner.append_room_device(&new_device);
    dinner.append_room_device(&new_device_1);
    smart_home.update_rooms(&dinner);
    let _ = smart_home.get_room_devices_info(&dinner);
}

#[test]
fn test_create_report() {
    let mut smart_home = SmartHome::new("My Home");
    let (new_device, new_device_1) = two_devices();
    let mut dinner = Room::new("Dinner");
    dinner.append_room_device(&new_device);
    dinner.append_room_device(&new_device_1);
    smart_home.update_rooms(&dinner);
    let device_info = smart_home.get_device_info(&dinner, "Smart Socket/WE23_134").unwrap();
    smart_home.create_report(&device_info);
}

#[test]
fn test_create_room() {
    Room::new("Dinner");
}

#[test]
fn test_append_room_device() {
    let (new_device, new_device_1) = two_devices();
    let mut dinner = Room::new("Dinner");
    dinner.append_room_device(&new_device);
    dinner.append_room_device(&new_device_1);
}

#[test]
fn test_remove_device() {
    let (new_device, new_device_1) = two_devices();
    let mut dinner = Room::new("Dinner");
    dinner.append_room_device(&new_device);
    dinner.append_room_device(&new_device_1);

    dinner.remove_device("Smart Socket/WE23_134");
}

#[test]
fn device_report_renders_status_as_pretty_json() {
    let (new_device, _) = two_devices();
    let mut dinner = Room::new("Dinner");
    dinner.append_room_device(&new_device);
    let report = String::new().get_device_info(&dinner, "Smart Socket/WE23_134").unwrap();
    let expected = format!("Name: Smart Socket\nVendor ID: WE23_134\nRoom: Dinner\nStat's: {}", SOCKET_STATUS);
    assert_eq!(report, expected);
}

#[test]
fn home_report_has_header() {
    let (new_device, _) = two_devices();
    let mut dinner = Room::new("Dinner");
    dinner.append_room_device(&new_device);
    let home = SmartHome::new("My Home");
    let report = home.get_device_info(&dinner, "Smart Socket/WE23_134").unwrap();
    let expected = format!("\n[REPORT]\nName: Smart Socket\nVendor ID: WE23_134\nRoom: Dinner\nStat's: {}", SOCKET_STATUS);
    assert_eq!(report, expected);
}

#[test]
fn device_without_status_reports_no_status() {
    let lamp = SmartDevice::new("Lamp", "L1");
    let mut hall = Room::new("Hall");
    hall.append_room_device(&lamp);
    let report = String::new().get_device_info(&hall, "Lamp/L1").unwrap();
    assert_eq!(report, "Name: Lamp\nVendor ID: L1\nRoom: Hall\nStat's: No status info");
}

#[test]
fn later_status_value_replaces_earlier() {
    let mut lamp = SmartDevice::new("Lamp", "L1");
    lamp.update_status_info(vec![("Is_on", "true")]);
    lamp.update_status_info_from_cli(vec![("Is_on".to_string(), "false".to_string())]);
    let mut hall = Room::new("Hall");
    hall.append_room_device(&lamp);
    let report = String::new().get_device_info(&hall, "Lamp/L1").unwrap();
    assert_eq!(report, "Name: Lamp\nVendor ID: L1\nRoom: Hall\nStat's: {\n  \"Is_on\": \"false\"\n}");
}

#[test]
fn room_report_numbers_devices_in_order() {
    let (new_device, new_device_1) = two_devices();
    let mut dinner = Room::new("Dinner");
    dinner.append_room_device(&new_device);
    dinner.append_room_device(&new_device_1);
    let report = SmartHome::new("My Home").get_room_devices_info(&dinner).unwrap();
    let expected = format!(
        "\n[REPORT#1]\nName: Smart Socket/WE23_134\nVendor ID: WE23_134\nRoom: Dinner\nStat's: {}\n\n[REPORT#2]\nName: Smart Socket/WE23_234\nVendor ID: WE23_234\nRoom: Dinner\nStat's: {}\n",
        SOCKET_STATUS, SOCKET_1_STATUS
    );
    assert_eq!(report, expected);
}

#[test]
fn empty_room_has_no_device_reports() {
    let hall = Room::new("Hall");
    assert_eq!(String::new().get_room_devices_info(&hall), Err(CommonError::DontExistDevice));
}

#[test]
fn removed_device_is_not_reported() {
    let (new_device, new_device_1) = two_devices();
    let mut dinner = Room::new("Dinner");
    dinner.append_room_device(&new_device);
    dinner.append_room_device(&new_device_1);
    dinner.remove_device("Smart Socket/WE23_134");
    assert_eq!(
        String::new().get_device_info(&dinner, "Smart Socket/WE23_134"),
        Err(CommonError::DontExistDevice)
    );
    assert!(String::new().get_device_info(&dinner, "Smart Socket/WE23_234").is_ok());
}

#[test]
fn appending_same_key_replaces_device() {
    let mut dinner = Room::new("Dinner");
    let mut lamp = SmartDevice::new("Lamp", "L1");
    dinner.append_room_device(&lamp);
    lamp.update_status_info(vec![("Is_on", "true")]);
    dinner.append_room_device(&lamp);
    let report = String::new().get_room_devices_info(&dinner).unwrap();
    assert_eq!(
        report,
        "\n[REPORT#1]\nName: Lamp/L1\nVendor ID: L1\nRoom: Hall\nStat's: {\n  \"Is_on\": \"true\"\n}\n".replace("Hall", "Dinner")
    );
}

#[test]
fn rooms_are_listed_by_name_and_first_match_removed() {
    let mut home = SmartHome::new("My Home");
    assert_eq!(home.get_rooms(), Err(CommonError::DontExistRoom));
    home.update_rooms(&Room::new("Dinner"));
    home.update_rooms(&Room::new("Bedroom"));
    home.update_rooms(&Room::new("Dinner"));
    assert_eq!(home.get_rooms().unwrap(), vec!["Dinner".to_string(), "Bedroom".to_string(), "Dinner".to_string()]);
    home.remove_rooms("Dinner");
    assert_eq!(home.get_rooms().unwrap(), vec!["Bedroom".to_string(), "Dinner".to_string()]);
    home.remove_rooms("Kitchen");
    assert_eq!(home.get_rooms().unwrap(), vec!["Bedroom".to_string(), "Dinner".to_string()]);
}

#[test]
fn report_text_helpers() {
    assert_eq!(decimal_string(0), "0");
    assert_eq!(decimal_string(1207), "1207");
    assert_eq!(device_info_text("A", "B", "C", "D"), "Name: A\nVendor ID: B\nRoom: C\nStat's: D");
    assert_eq!(entry_info_text(12, "A", "B", "C", "D"), "\n[REPORT#12]\nName: A\nVendor ID: B\nRoom: C\nStat's: D\n");
}

#[test]
fn common_error_messages() {
    assert_eq!(CommonError::DontExistRoom.message(), "Dont exist Room. You need to create it");
    assert_eq!(CommonError::DontExistInfo.message(), "Dont exist Info about this Device");
}

#[test]
fn create_report_hands_back_its_argument() {
    let home = SmartHome::new("My Home");
    let text = "report".to_string();
    assert!(std::ptr::eq(home.create_report(&text), &text));
}
