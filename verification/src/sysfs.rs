//! The state of the host's power supplies, out of its power supply class.
//!
//! The class is a directory with an entry for each supply; a supply's
//! properties are files in it. The caller reads the files; what they mean is
//! settled here.

use crate::power::{BatteryData, BatteryHealth, BatteryStatus, PowerData};
use crate::property::{parse_u32, parsed_u32, trimmed};
use std::time::SystemTime;
use vstd::prelude::*;

verus! {

/// The directory of the host's power supply class.
pub const POWER_SUPPLY_PATH: &'static str = "/sys/class/power_supply";

/// How often a monitor looks, in seconds.
pub const POLL_INTERVAL_SECS: u64 = 1;

/// `std::time::SystemTime`, a point in time that is only kept.
#[verifier::external_type_specification]
#[verifier::external_body]
pub struct ExSystemTime(std::time::SystemTime);

/// The files of one supply, as they were read; a file that could not be read is
/// missing.
#[derive(Debug, Default)]
pub struct PowerSupply {
    /// The file `type`.
    pub kind: Option<String>,
    pub present: Option<String>,
    pub status: Option<String>,
    pub health: Option<String>,
    pub capacity: Option<String>,
    pub voltage_now: Option<String>,
    pub current_now: Option<String>,
    pub charge_now: Option<String>,
    pub charge_full: Option<String>,
    pub online: Option<String>,
}

/// What a file says: its text without the white space around it.
pub open spec fn said(file: Option<String>) -> Option<Seq<char>> {
    match file {
        Some(text) => Some(trimmed(text@)),
        None => None,
    }
}

/// Whether a file says `word`.
pub open spec fn says(file: Option<String>, word: Seq<char>) -> bool {
    said(file) == Some(word)
}

/// The number that a file holds, or 0 where it holds none.
pub open spec fn number_in(file: Option<String>) -> u32 {
    match said(file) {
        Some(text) => match parsed_u32(text) {
            Some(n) => n,
            None => 0,
        },
        None => 0,
    }
}

/// The status that a file tells.
pub open spec fn status_in(file: Option<String>) -> BatteryStatus {
    if says(file, "Charging"@) {
        BatteryStatus::Charging
    } else if says(file, "Discharging"@) {
        BatteryStatus::Discharging
    } else if says(file, "Full"@) || says(file, "Not charging"@) {
        BatteryStatus::NotCharging
    } else {
        BatteryStatus::Unknown
    }
}

/// The health that a file tells.
pub open spec fn health_in(file: Option<String>) -> BatteryHealth {
    if says(file, "Good"@) {
        BatteryHealth::Good
    } else if says(file, "Overheat"@) {
        BatteryHealth::Overheat
    } else if says(file, "Dead"@) {
        BatteryHealth::Dead
    } else if says(file, "Over voltage"@) {
        BatteryHealth::OverVoltage
    } else if says(file, "Unspecified failure"@) {
        BatteryHealth::UnspecifiedFailure
    } else if says(file, "Cold"@) {
        BatteryHealth::Cold
    } else if says(file, "Watchdog timer expire"@) {
        BatteryHealth::WatchdogTimerExpire
    } else if says(file, "Safety timer expire"@) {
        BatteryHealth::SafetyTimerExpire
    } else if says(file, "Over current"@) {
        BatteryHealth::OverCurrent
    } else if says(file, "Calibration required"@) {
        BatteryHealth::CalibrationRequired
    } else if says(file, "Warm"@) {
        BatteryHealth::Warm
    } else if says(file, "Cool"@) {
        BatteryHealth::Cool
    } else if says(file, "Hot"@) {
        BatteryHealth::Hot
    } else if says(file, "No battery"@) {
        BatteryHealth::NoBattery
    } else {
        BatteryHealth::Unknown
    }
}

/// Whether a supply is a battery that is in place.
pub open spec fn is_battery(supply: PowerSupply) -> bool {
    says(supply.kind, "Battery"@) && !says(supply.present, "0"@)
}

/// Whether a supply feeds the machine from outside.
pub open spec fn is_external(supply: PowerSupply) -> bool {
    ||| says(supply.kind, "Mains"@)
    ||| says(supply.kind, "USB"@)
    ||| says(supply.kind, "USB_C"@)
    ||| says(supply.kind, "USB_DCP"@)
    ||| says(supply.kind, "USB_CDP"@)
    ||| says(supply.kind, "USB_ACA"@)
}

/// The state of a battery, with the charge held down to 100 percent.
pub open spec fn battery_in(supply: PowerSupply) -> BatteryData {
    BatteryData {
        status: status_in(supply.status),
        health: health_in(supply.health),
        percent: if number_in(supply.capacity) > 100 {
            100
        } else {
            number_in(supply.capacity)
        },
        voltage: number_in(supply.voltage_now),
        current: number_in(supply.current_now),
        charge_counter: number_in(supply.charge_now),
        charge_full: number_in(supply.charge_full),
    }
}

/// The entries of the class, each with its files or the error that came
/// instead, or the error that kept the class from being listed.
pub type Listing = Result<Vec<Result<PowerSupply, String>>, String>;

/// The first error among the entries.
pub open spec fn first_error(entries: Seq<Result<PowerSupply, String>>) -> Option<String>
    decreases entries.len(),
{
    if entries.len() == 0 {
        None
    } else {
        match entries[0] {
            Err(text) => Some(text),
            Ok(_) => first_error(entries.skip(1)),
        }
    }
}

/// Whether an entry's supply feeds the machine from outside right now.
pub open spec fn is_online(entry: Result<PowerSupply, String>) -> bool {
    entry matches Ok(supply) && is_external(supply) && says(supply.online, "1"@)
}

/// The state of the first battery among the entries that is in place.
pub open spec fn first_battery(entries: Seq<Result<PowerSupply, String>>) -> Option<BatteryData>
    decreases entries.len(),
{
    if entries.len() == 0 {
        None
    } else {
        match entries[0] {
            Ok(supply) if is_battery(supply) => Some(battery_in(supply)),
            _ => first_battery(entries.skip(1)),
        }
    }
}

/// What a listing comes to: the error that it met first, or the state of the
/// supplies.
pub open spec fn power_data_in(listing: Listing) -> Result<PowerData, String> {
    match listing {
        Err(text) => Err(text),
        Ok(entries) => match first_error(entries@) {
            Some(text) => Err(text),
            None => Ok(
                PowerData {
                    ac_online: exists|i: int|
                        0 <= i < entries@.len() && is_online(#[trigger] entries@[i]),
                    battery: first_battery(entries@),
                },
            ),
        },
    }
}

/// What there is to tell of `data` where `last` was seen last: nothing, if it is
/// the same.
pub open spec fn news(last: Option<PowerData>, data: PowerData) -> Option<PowerData> {
    if last == Some(data) {
        None
    } else {
        Some(data)
    }
}

/// What a file says.
pub fn read_string(file: &Option<String>) -> (text: Option<String>)
    ensures
        match text {
            Some(t) => said(*file) == Some(t@),
            None => said(*file) is None,
        },
{
    match file {
        Some(text) => Some(text.as_str().trim().to_owned()),
        None => None,
    }
}

/// Whether a text that a file says is `word`.
fn is_word(text: &Option<String>, word: &str) -> (r: bool)
    ensures
        r == (text matches Some(t) && t@ == word@),
{
    match text {
        Some(t) => t.eq(&word.to_owned()),
        None => false,
    }
}

/// The number that a file holds, or 0 where it holds none.
pub fn read_u32(file: &Option<String>) -> (n: u32)
    ensures
        n == number_in(*file),
{
    match read_string(file) {
        Some(text) => match parse_u32(text.as_str()) {
            Some(n) => n,
            None => 0,
        },
        None => 0,
    }
}

/// The status that a file tells.
pub fn read_status(file: &Option<String>) -> (status: BatteryStatus)
    ensures
        status == status_in(*file),
{
    let text = read_string(file);
    if is_word(&text, "Charging") {
        BatteryStatus::Charging
    } else if is_word(&text, "Discharging") {
        BatteryStatus::Discharging
    } else if is_word(&text, "Full") || is_word(&text, "Not charging") {
        BatteryStatus::NotCharging
    } else {
        BatteryStatus::Unknown
    }
}

/// The health that a file tells.
pub fn read_health(file: &Option<String>) -> (health: BatteryHealth)
    ensures
        health == health_in(*file),
{
    let text = read_string(file);
    if is_word(&text, "Good") {
        BatteryHealth::Good
    } else if is_word(&text, "Overheat") {
        BatteryHealth::Overheat
    } else if is_word(&text, "Dead") {
        BatteryHealth::Dead
    } else if is_word(&text, "Over voltage") {
        BatteryHealth::OverVoltage
    } else if is_word(&text, "Unspecified failure") {
        BatteryHealth::UnspecifiedFailure
    } else if is_word(&text, "Cold") {
        BatteryHealth::Cold
    } else if is_word(&text, "Watchdog timer expire") {
        BatteryHealth::WatchdogTimerExpire
    } else if is_word(&text, "Safety timer expire") {
        BatteryHealth::SafetyTimerExpire
    } else if is_word(&text, "Over current") {
        BatteryHealth::OverCurrent
    } else if is_word(&text, "Calibration required") {
        BatteryHealth::CalibrationRequired
    } else if is_word(&text, "Warm") {
        BatteryHealth::Warm
    } else if is_word(&text, "Cool") {
        BatteryHealth::Cool
    } else if is_word(&text, "Hot") {
        BatteryHealth::Hot
    } else if is_word(&text, "No battery") {
        BatteryHealth::NoBattery
    } else {
        BatteryHealth::Unknown
    }
}

fn read_battery(supply: &PowerSupply) -> (battery: BatteryData)
    ensures
        battery == battery_in(*supply),
{
    let capacity: u32 = read_u32(&supply.capacity);
    BatteryData {
        status: read_status(&supply.status),
        health: read_health(&supply.health),
        percent: if capacity > 100 {
            100
        } else {
            capacity
        },
        voltage: read_u32(&supply.voltage_now),
        current: read_u32(&supply.current_now),
        charge_counter: read_u32(&supply.charge_now),
        charge_full: read_u32(&supply.charge_full),
    }
}

proof fn lemma_first_step(entries: Seq<Result<PowerSupply, String>>, n: int)
    requires
        0 <= n < entries.len(),
    ensures
        first_error(entries.skip(n)) == (match entries[n] {
            Err(text) => Some(text),
            Ok(_) => first_error(entries.skip(n + 1)),
        }),
        first_battery(entries.skip(n)) == (match entries[n] {
            Ok(supply) if is_battery(supply) => Some(battery_in(supply)),
            _ => first_battery(entries.skip(n + 1)),
        }),
{
    assert(entries.skip(n).skip(1) =~= entries.skip(n + 1));
}

/// The state of the supplies that a listing tells.
pub fn read_power_data(listing: &Listing) -> (r: Result<PowerData, String>)
    ensures
        r == power_data_in(*listing),
{
    let entries: &Vec<Result<PowerSupply, String>> = match listing {
        Err(text) => return Err(text.clone()),
        Ok(entries) => entries,
    };
    let mut ac_online: bool = false;
    let mut battery: Option<BatteryData> = None;
    let mut i: usize = 0;
    assert(entries@.skip(0) =~= entries@);
    while i < entries.len()
        invariant
            i <= entries@.len(),
            first_error(entries@) == first_error(entries@.skip(i as int)),
            ac_online == (exists|k: int| 0 <= k < i && is_online(#[trigger] entries@[k])),
            first_battery(entries@) == (if battery is Some {
                battery
            } else {
                first_battery(entries@.skip(i as int))
            }),
            listing == Ok::<Vec<Result<PowerSupply, String>>, String>(*entries),
        decreases entries@.len() - i,
    {
        proof {
            lemma_first_step(entries@, i as int);
        }
        let ghost seen = ac_online;
        let supply: &PowerSupply = match &entries[i] {
            Err(text) => return Err(text.clone()),
            Ok(supply) => supply,
        };
        let kind = read_string(&supply.kind);
        if is_word(&kind, "Battery") && battery.is_none() {
            let present = read_string(&supply.present);
            if !is_word(&present, "0") {
                battery = Some(read_battery(supply));
            }
        }
        let external: bool = is_word(&kind, "Mains") || is_word(&kind, "USB") || is_word(
            &kind,
            "USB_C",
        ) || is_word(&kind, "USB_DCP") || is_word(&kind, "USB_CDP") || is_word(&kind, "USB_ACA");
        if external {
            let online = read_string(&supply.online);
            ac_online = ac_online || is_word(&online, "1");
        }
        proof {
            if ac_online && !seen {
                assert(is_online(entries@[i as int]));
            }
            if seen {
                let k = choose|k: int| 0 <= k < i && is_online(#[trigger] entries@[k]);
                assert(0 <= k < i + 1 && is_online(entries@[k]));
            }
        }
        i = i + 1;
    }
    Ok(PowerData { ac_online, battery })
}

/// Watches the power supplies and tells what has changed.
pub struct SysfsMonitor {
    root: String,
    last_data: Option<PowerData>,
}

impl SysfsMonitor {
    /// The directory that is watched.
    pub closed spec fn root_path(&self) -> Seq<char> {
        self.root@
    }

    /// What was seen last.
    pub closed spec fn last(&self) -> Option<PowerData> {
        self.last_data
    }

    /// A monitor of the host's power supply class, which `listing` lists now.
    pub fn connect(listing: &Listing) -> (monitor: Self)
        ensures
            monitor.root_path() == POWER_SUPPLY_PATH@,
            monitor.last() == (match power_data_in(*listing) {
                Ok(data) => Some(data),
                Err(_) => None,
            }),
    {
        Self::connect_at(POWER_SUPPLY_PATH.to_owned(), listing)
    }

    /// A monitor of the class at `root`, which `listing` lists now. A listing
    /// that fails counts as nothing seen.
    pub fn connect_at(root: String, listing: &Listing) -> (monitor: Self)
        ensures
            monitor.root_path() == root@,
            monitor.last() == (match power_data_in(*listing) {
                Ok(data) => Some(data),
                Err(_) => None,
            }),
    {
        let last_data: Option<PowerData> = match read_power_data(listing) {
            Ok(data) => Some(data),
            Err(_) => None,
        };
        SysfsMonitor { root, last_data }
    }

    /// The directory that is watched.
    pub fn root(&self) -> (root: &str)
        ensures
            root@ == self.root_path(),
    {
        self.root.as_str()
    }

    /// Looks again: gives the state of the supplies if it is not what was seen
    /// last.
    pub fn read_message(&mut self, listing: &Listing) -> (r: Result<Option<PowerData>, String>)
        ensures
            final(self).root_path() == old(self).root_path(),
            match power_data_in(*listing) {
                Err(text) => {
                    &&& r == Err::<Option<PowerData>, String>(text)
                    &&& final(self).last() == old(self).last()
                },
                Ok(data) => {
                    &&& r == Ok::<Option<PowerData>, String>(news(old(self).last(), data))
                    &&& final(self).last() == Some(data)
                },
            },
    {
        let data: PowerData = match read_power_data(listing) {
            Err(text) => return Err(text),
            Ok(data) => data,
        };
        match self.last_data {
            Some(last) => if last == data {
                return Ok(None);
            },
            None => {},
        }
        self.last_data = Some(data);
        Ok(Some(data))
    }
}

/// Asks for the state of the power supplies once.
pub struct SysfsClient {
    root: String,
    last_request_timestamp: Option<SystemTime>,
}

impl SysfsClient {
    /// The directory that is asked.
    pub closed spec fn root_path(&self) -> Seq<char> {
        self.root@
    }

    /// When the last request was made.
    pub closed spec fn last_request(&self) -> Option<SystemTime> {
        self.last_request_timestamp
    }

    /// A client of the host's power supply class.
    pub fn connect() -> (r: Result<SysfsClient, String>)
        ensures
            r matches Ok(client) && client.root_path() == POWER_SUPPLY_PATH@
                && client.last_request() is None,
    {
        Ok(SysfsClient { root: POWER_SUPPLY_PATH.to_owned(), last_request_timestamp: None })
    }

    /// The directory that is asked.
    pub fn root(&self) -> (root: &str)
        ensures
            root@ == self.root_path(),
    {
        self.root.as_str()
    }

    /// The state of the supplies at `now`, which is noted whether or not the
    /// listing could be had.
    pub fn get_power_data(&mut self, now: SystemTime, listing: &Listing) -> (r: Result<
        PowerData,
        String,
    >)
        ensures
            r == power_data_in(*listing),
            final(self).last_request() == Some(now),
            final(self).root_path() == old(self).root_path(),
    {
        self.last_request_timestamp = Some(now);
        read_power_data(listing)
    }

    /// When the last request was made.
    pub fn last_request_timestamp(&self) -> (timestamp: Option<SystemTime>)
        ensures
            timestamp == self.last_request(),
    {
        self.last_request_timestamp
    }
}

/// A supply that is looked at twice without a change in between is told of once
/// at most, and a change is always told of.
pub proof fn law_only_changes_are_told(last: Option<PowerData>, data: PowerData, other: PowerData)
    ensures
        news(Some(data), data) is None,
        data != other ==> news(Some(data), other) == Some(other),
        news(None, data) == Some(data),
        news(last, data) matches Some(told) ==> told == data,
{
}

/// The charge that is told of a battery is at most 100 percent.
pub proof fn law_percent_is_at_most_100(listing: Listing)
    ensures
        power_data_in(listing) matches Ok(data) ==> (data.battery matches Some(battery)
            ==> battery.percent <= 100),
{
    if let Ok(entries) = listing {
        lemma_battery_percent(entries@);
    }
}

proof fn lemma_battery_percent(entries: Seq<Result<PowerSupply, String>>)
    ensures
        first_battery(entries) matches Some(battery) ==> battery.percent <= 100,
    decreases entries.len(),
{
    if entries.len() > 0 {
        lemma_battery_percent(entries.skip(1));
    }
}

/// The battery that is told of is the first one in place: those before it, and
/// other supplies, do not matter, nor does anything that comes after it.
pub proof fn law_first_battery_counts(entries: Seq<Result<PowerSupply, String>>, i: int)
    requires
        0 <= i < entries.len(),
        entries[i] matches Ok(supply) && is_battery(supply),
        forall|k: int|
            0 <= k < i ==> !(#[trigger] entries[k] matches Ok(supply) && is_battery(supply)),
    ensures
        first_battery(entries) == Some(battery_in(entries[i]->Ok_0)),
    decreases i,
{
    if i > 0 {
        let rest = entries.skip(1);
        assert(rest[i - 1] == entries[i]);
        assert forall|k: int| 0 <= k < i - 1 implies !(#[trigger] rest[k] matches Ok(supply)
            && is_battery(supply)) by {
            assert(rest[k] == entries[k + 1]);
        }
        assert(!(entries[0] matches Ok(supply) && is_battery(supply)));
        law_first_battery_counts(rest, i - 1);
    }
}

/// Where no supply is a battery in place, none is told of.
pub proof fn law_no_battery_without_one(entries: Seq<Result<PowerSupply, String>>)
    requires
        forall|k: int|
            0 <= k < entries.len() ==> !(#[trigger] entries[k] matches Ok(supply) && is_battery(
                supply,
            )),
    ensures
        first_battery(entries) is None,
    decreases entries.len(),
{
    if entries.len() > 0 {
        let rest = entries.skip(1);
        assert(!(entries[0] matches Ok(supply) && is_battery(supply)));
        assert forall|k: int| 0 <= k < rest.len() implies !(#[trigger] rest[k] matches Ok(supply)
            && is_battery(supply)) by {
            assert(rest[k] == entries[k + 1]);
        }
        law_no_battery_without_one(rest);
    }
}

} // verus!
