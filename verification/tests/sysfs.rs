use guest_bridges::power::{BatteryHealth, BatteryStatus, PowerData};
use guest_bridges::property::parse_u32;
use guest_bridges::sysfs::{
    read_health, read_power_data, read_status, read_string, read_u32, Listing, PowerSupply,
    SysfsClient, SysfsMonitor, POLL_INTERVAL_SECS,
};
use std::time::{Duration, SystemTime};

fn file(text: &str) -> Option<String> {
    Some(text.to_string())
}

fn battery() -> PowerSupply {
    PowerSupply {
        kind: file("Battery\n"),
        present: file("1\n"),
        capacity: file("73\n"),
        status: file("Discharging\n"),
        health: file("Good\n"),
        voltage_now: file("12000000\n"),
        current_now: file("900000\n"),
        charge_now: file("3000000\n"),
        charge_full: file("4100000\n"),
        ..Default::default()
    }
}

fn external(kind: &str, online: &str) -> PowerSupply {
    PowerSupply {
        kind: file(kind),
        online: file(online),
        ..Default::default()
    }
}

fn listing(supplies: Vec<PowerSupply>) -> Listing {
    Ok(supplies.into_iter().map(Ok).collect())
}

#[test]
fn reads_battery_and_ac_state() {
    let listing = listing(vec![battery(), external("Mains\n", "0\n")]);
    let data = read_power_data(&listing).unwrap();
    assert!(!data.ac_online);
    let battery = data.battery.unwrap();
    assert_eq!(battery.percent, 73);
    assert_eq!(battery.status, BatteryStatus::Discharging);
    assert_eq!(battery.health, BatteryHealth::Good);
    assert_eq!(battery.voltage, 12_000_000);
    assert_eq!(battery.current, 900_000);
    assert_eq!(battery.charge_counter, 3_000_000);
    assert_eq!(battery.charge_full, 4_100_000);
}

#[test]
fn reports_no_battery_on_tower() {
    let data = read_power_data(&listing(vec![external("Mains\n", "1\n")])).unwrap();
    assert!(data.ac_online);
    assert!(data.battery.is_none());
}

#[test]
fn first_battery_in_place_counts() {
    let mut absent = battery();
    absent.present = file("0\n");
    absent.capacity = file("1\n");
    let mut second = battery();
    second.capacity = file("20\n");
    let mut third = battery();
    third.capacity = file("30\n");
    third.present = None;
    let data = read_power_data(&listing(vec![absent, second, third])).unwrap();
    assert_eq!(data.battery.unwrap().percent, 20);

    let mut unsaid = battery();
    unsaid.present = None;
    let data = read_power_data(&listing(vec![unsaid])).unwrap();
    assert_eq!(data.battery.unwrap().percent, 73);
}

#[test]
fn any_external_supply_counts() {
    for kind in ["Mains", "USB", "USB_C", "USB_DCP", "USB_CDP", "USB_ACA"] {
        let one = listing(vec![external(kind, "1"), external("Mains", "0")]);
        assert!(read_power_data(&one).unwrap().ac_online);
        let none = listing(vec![external(kind, "0")]);
        assert!(!read_power_data(&none).unwrap().ac_online);
    }
    let other = listing(vec![external("UPS", "1"), external("Mains", "2")]);
    assert!(!read_power_data(&other).unwrap().ac_online);
}

#[test]
fn charge_is_held_down_to_100() {
    let mut full = battery();
    full.capacity = file("250");
    let data = read_power_data(&listing(vec![full])).unwrap();
    assert_eq!(data.battery.unwrap().percent, 100);
}

#[test]
fn first_error_of_a_listing_is_passed_on() {
    assert_eq!(
        read_power_data(&Err("no class".to_string())),
        Err("no class".to_string())
    );
    let entries: Listing = Ok(vec![
        Ok(battery()),
        Err("first".to_string()),
        Err("second".to_string()),
    ]);
    assert_eq!(read_power_data(&entries), Err("first".to_string()));
    assert_eq!(
        read_power_data(&listing(Vec::new())),
        Ok(PowerData {
            ac_online: false,
            battery: None
        })
    );
}

#[test]
fn statuses() {
    let told = [
        ("Charging", BatteryStatus::Charging),
        ("Discharging\n", BatteryStatus::Discharging),
        ("Full\n", BatteryStatus::NotCharging),
        (" Not charging ", BatteryStatus::NotCharging),
        ("charging", BatteryStatus::Unknown),
        ("", BatteryStatus::Unknown),
    ];
    for (text, status) in told {
        assert_eq!(read_status(&file(text)), status);
    }
    assert_eq!(read_status(&None), BatteryStatus::Unknown);
}

#[test]
fn healths() {
    let told = [
        ("Good", BatteryHealth::Good),
        ("Overheat", BatteryHealth::Overheat),
        ("Dead", BatteryHealth::Dead),
        ("Over voltage", BatteryHealth::OverVoltage),
        ("Unspecified failure", BatteryHealth::UnspecifiedFailure),
        ("Cold", BatteryHealth::Cold),
        ("Watchdog timer expire", BatteryHealth::WatchdogTimerExpire),
        ("Safety timer expire", BatteryHealth::SafetyTimerExpire),
        ("Over current", BatteryHealth::OverCurrent),
        ("Calibration required", BatteryHealth::CalibrationRequired),
        ("Warm", BatteryHealth::Warm),
        ("Cool", BatteryHealth::Cool),
        ("Hot", BatteryHealth::Hot),
        ("No battery", BatteryHealth::NoBattery),
        ("Fine", BatteryHealth::Unknown),
    ];
    for (text, health) in told {
        assert_eq!(read_health(&file(&format!("{}\n", text))), health);
    }
    assert_eq!(read_health(&None), BatteryHealth::Unknown);
}

#[test]
fn numbers_are_read_as_the_standard_library_does() {
    for text in [
        "0", "7", "73", "007", "+5", "4294967295", "4294967296", "99999999999999999999", "", "+",
        "-1", "-0", "++1", "1 ", " 1", "1_0", "0x10", "1.5", "\u{663}", "12a",
    ] {
        assert_eq!(parse_u32(text), text.parse::<u32>().ok(), "{:?}", text);
        assert_eq!(
            read_u32(&file(text)),
            text.trim().parse::<u32>().unwrap_or_default(),
            "{:?}",
            text
        );
    }
    assert_eq!(read_u32(&None), 0);
}

#[test]
fn every_kind_of_white_space_is_cut_off() {
    let listed = |c: u32| {
        matches!(
            c,
            0x9..=0xd
                | 0x20
                | 0x85
                | 0xa0
                | 0x1680
                | 0x2000..=0x200a
                | 0x2028
                | 0x2029
                | 0x202f
                | 0x205f
                | 0x3000
        )
    };
    for code in 0..=0x10ffff {
        if let Some(c) = char::from_u32(code) {
            let text = format!("{}a b{}", c, c);
            let left = read_string(&Some(text.clone())).unwrap();
            if listed(code) {
                assert_eq!(left, "a b");
            } else {
                assert_eq!(left, text);
            }
        }
    }
    assert_eq!(read_string(&file(" \n\t")), file(""));
    assert_eq!(read_string(&None), None);
}

#[test]
fn monitor_tells_of_changes_only() {
    let on = listing(vec![external("Mains", "1")]);
    let off = listing(vec![external("Mains", "0")]);
    let online = |ac_online| {
        Ok(Some(PowerData {
            ac_online,
            battery: None,
        }))
    };
    let mut monitor = SysfsMonitor::connect(&on);
    assert_eq!(monitor.root(), "/sys/class/power_supply");
    assert_eq!(monitor.read_message(&on), Ok(None));
    assert_eq!(monitor.read_message(&off), online(false));
    assert_eq!(monitor.read_message(&off), Ok(None));
    assert_eq!(
        monitor.read_message(&Err("gone".to_string())),
        Err("gone".to_string())
    );
    assert_eq!(monitor.read_message(&off), Ok(None));
    assert_eq!(monitor.read_message(&on), online(true));
}

#[test]
fn monitor_without_a_first_look_tells_at_once() {
    let off = listing(Vec::new());
    let mut monitor = SysfsMonitor::connect_at("/tmp/x".to_string(), &Err("gone".to_string()));
    assert_eq!(monitor.root(), "/tmp/x");
    assert!(matches!(monitor.read_message(&off), Ok(Some(_))));
    assert_eq!(POLL_INTERVAL_SECS, 1);
}

#[test]
fn client_notes_when_it_asked() {
    let mut client = SysfsClient::connect().unwrap();
    assert_eq!(client.root(), "/sys/class/power_supply");
    assert_eq!(client.last_request_timestamp(), None);
    let now = SystemTime::UNIX_EPOCH + Duration::from_secs(5);
    let on = listing(vec![external("USB", "1")]);
    assert!(client.get_power_data(now, &on).unwrap().ac_online);
    assert_eq!(client.last_request_timestamp(), Some(now));
    let later = now + Duration::from_secs(1);
    assert!(client
        .get_power_data(later, &Err("gone".to_string()))
        .is_err());
    assert_eq!(client.last_request_timestamp(), Some(later));
}
