//! The state of a machine's power supplies.

use vstd::prelude::*;

verus! {

/// Whether a battery is being charged.
#[derive(Clone, Copy, Debug, PartialEq, Eq, Structural)]
pub enum BatteryStatus {
    Unknown,
    Charging,
    Discharging,
    NotCharging,
}

/// How a battery is.
#[derive(Clone, Copy, Debug, PartialEq, Eq, Structural)]
pub enum BatteryHealth {
    Unknown,
    Good,
    Overheat,
    Dead,
    OverVoltage,
    UnspecifiedFailure,
    Cold,
    WatchdogTimerExpire,
    SafetyTimerExpire,
    OverCurrent,
    CalibrationRequired,
    Warm,
    Cool,
    Hot,
    NoBattery,
}

/// The state of a battery.
#[derive(Clone, Copy, Debug, PartialEq, Eq, Structural)]
pub struct BatteryData {
    pub status: BatteryStatus,
    pub health: BatteryHealth,
    pub percent: u32,
    pub voltage: u32,
    pub current: u32,
    pub charge_counter: u32,
    pub charge_full: u32,
}

/// The state of the supplies: whether one from outside feeds the machine, and
/// the battery, if there is one.
#[derive(Clone, Copy, Debug, PartialEq, Eq, Structural)]
pub struct PowerData {
    pub ac_online: bool,
    pub battery: Option<BatteryData>,
}

} // verus!
