use vstd::prelude::*;
use vstd::string::StringSliceAdditionalSpecFns;

use crate::bus::{
    StateBus, BATTERY_CHARGING, BATTERY_DISABLED, BATTERY_DISCHARGING, BATTERY_FULL,
    BATTERY_UNKNOWN,
};
use crate::bytes::bytes_equal;
use crate::text::{trim, trim_bounds};

verus! {

/// Seconds between two ticks of the poller.
pub const TICK_SECONDS: u64 = 1;

/// The battery is sampled once every this many ticks.
pub const BATTERY_PERIOD_TICKS: u32 = 30;


/// The local wall-clock time, as the bar shows it.
#[derive(Clone, Copy, Debug, PartialEq, Eq, Structural)]
pub struct ClockReading {
    pub hour: u8,
    pub minute: u8,
    pub day: u8,
    pub month: u8,
    pub year: i32,
}

impl ClockReading {
    pub open spec fn valid(self) -> bool {
        &&& self.hour < 24
        &&& self.minute < 60
        &&& 1 <= self.day <= 31
        &&& 1 <= self.month <= 12
    }
}

/// Relies on time::OffsetDateTime::now_local for the current local time,
/// and on its accessors hour (0..24), minute (0..60), day (1..=31), month
/// (January is 1, December 12) and year.
#[verifier::external_body]
fn local_now() -> (r: Option<ClockReading>)
    ensures
        r matches Some(c) ==> c.valid(),
{
    match time::OffsetDateTime::now_local() {
        Ok(now) => Some(
            ClockReading {
                hour: now.hour(),
                minute: now.minute(),
                day: now.day(),
                month: u8::from(now.month()),
                year: now.year(),
            },
        ),
        Err(_) => None,
    }
}

/// The last two digits of a year, counted upwards also for years before 0.
pub fn two_digit_year(year: i32) -> (r: u8)
    ensures
        r == year as int % 100,
{
    let m = year % 100;
    if m < 0 {
        (m + 100) as u8
    } else {
        m as u8
    }
}

/// What a clock tick publishes.
#[derive(Clone, Copy, Debug)]
pub struct ClockUpdate {
    /// New hour and minute, when the minute changed.
    pub time: Option<(u8, u8)>,
    /// New day, month and two-digit year, when the day changed.
    pub date: Option<(u8, u8, u8)>,
}

/// Compares the time `now` with the minute and day last published.
pub fn clock_update(last_minute: u8, last_day: u8, now: &ClockReading) -> (r: ClockUpdate)
    ensures
        r.time == (if now.minute != last_minute {
            Some((now.hour, now.minute))
        } else {
            None
        }),
        r.date == (if now.day != last_day {
            Some((now.day, now.month, (now.year as int % 100) as u8))
        } else {
            None
        }),
{
    let time = if now.minute != last_minute {
        Some((now.hour, now.minute))
    } else {
        None
    };
    let date = if now.day != last_day {
        Some((now.day, now.month, two_digit_year(now.year)))
    } else {
        None
    };
    ClockUpdate { time, date }
}

/// Publishes what changed in a clock update; returns whether anything did.
pub fn publish_clock(bus: &StateBus, update: &ClockUpdate) -> (changed: bool)
    ensures
        changed == (update.time is Some || update.date is Some),
{
    if let Some((h, m)) = update.time {
        bus.set_clock(h, m);
    }
    if let Some((d, mo, y)) = update.date {
        bus.set_date(d, mo, y);
    }
    update.time.is_some() || update.date.is_some()
}

/// Reads the local time and publishes the minute and the date when they
/// changed; returns whether anything was published. Nothing is published
/// when the local time cannot be had.
pub fn tick_clock(bus: &StateBus) -> bool {
    match local_now() {
        Some(now) => {
            let update = clock_update(bus.minute(), bus.day(), &now);
            publish_clock(bus, &update)
        },
        None => false,
    }
}

/// When the battery is next sampled: ticks count from 0 up to the period.
pub struct PollSchedule {
    pub tick: u32,
}

impl PollSchedule {
    pub fn new() -> (r: Self)
        ensures
            r.tick == 0,
    {
        PollSchedule { tick: 0 }
    }

    /// Advances one tick; returns whether the battery is sampled on it:
    /// on the first tick of each period, unless battery reporting is disabled.
    pub fn advance(&mut self, battery_state: u8) -> (sample: bool)
        requires
            old(self).tick < BATTERY_PERIOD_TICKS,
        ensures
            sample == (old(self).tick == 0 && battery_state != BATTERY_DISABLED),
            final(self).tick == (old(self).tick + 1) % (BATTERY_PERIOD_TICKS as int),
    {
        let sample = self.tick == 0 && battery_state != BATTERY_DISABLED;
        self.tick = if self.tick + 1 == BATTERY_PERIOD_TICKS {
            0
        } else {
            self.tick + 1
        };
        sample
    }
}

/// "Discharging"
pub open spec fn discharging_text() -> Seq<u8> {
    seq![68u8, 105, 115, 99, 104, 97, 114, 103, 105, 110, 103]
}

/// "Charging"
pub open spec fn charging_text() -> Seq<u8> {
    seq![67u8, 104, 97, 114, 103, 105, 110, 103]
}

/// "Full"
pub open spec fn full_text() -> Seq<u8> {
    seq![70u8, 117, 108, 108]
}

/// The state code of a battery status text, surrounding whitespace aside.
pub open spec fn status_code(text: Seq<u8>) -> u8 {
    let t = trim(text);
    if t == discharging_text() {
        BATTERY_DISCHARGING
    } else if t == charging_text() {
        BATTERY_CHARGING
    } else if t == full_text() {
        BATTERY_FULL
    } else {
        BATTERY_UNKNOWN
    }
}

/// Maps the battery's status text to a state code: discharging, charging,
/// full, and unknown for anything else.
pub fn battery_status_code(text: &str) -> (r: u8)
    ensures
        r == status_code(text.spec_bytes()),
{
    let b = text.as_bytes();
    let (s, e) = trim_bounds(b);
    let t = &b[s..e];
    let discharging: [u8; 11] = [68, 105, 115, 99, 104, 97, 114, 103, 105, 110, 103];
    let charging: [u8; 8] = [67, 104, 97, 114, 103, 105, 110, 103];
    let full: [u8; 4] = [70, 117, 108, 108];
    assert(discharging@ =~= discharging_text());
    assert(charging@ =~= charging_text());
    assert(full@ =~= full_text());
    if bytes_equal(t, discharging.as_slice()) {
        BATTERY_DISCHARGING
    } else if bytes_equal(t, charging.as_slice()) {
        BATTERY_CHARGING
    } else if bytes_equal(t, full.as_slice()) {
        BATTERY_FULL
    } else {
        BATTERY_UNKNOWN
    }
}

/// Minutes that `charge` lasts at `rate` per hour, capped at the largest `u16`.
pub open spec fn minutes_at(charge: int, rate: int) -> int {
    if 60 * charge / rate > 65535 {
        65535
    } else {
        60 * charge / rate
    }
}

/// The remaining-time estimate in minutes: until empty while discharging,
/// until full while charging, and 0 when the rate is 0, the battery is
/// already at or above its full charge, or in any other state.
pub open spec fn estimate_spec(state: u8, charge_now: u32, charge_full: u32, rate: u32) -> int {
    if rate == 0 {
        0
    } else if state == BATTERY_DISCHARGING {
        minutes_at(charge_now as int, rate as int)
    } else if state == BATTERY_CHARGING && charge_full > charge_now {
        minutes_at(charge_full - charge_now, rate as int)
    } else {
        0
    }
}

/// Computes `estimate_spec`.
pub fn battery_estimate(state: u8, charge_now: u32, charge_full: u32, rate: u32) -> (r: u16)
    ensures
        r == estimate_spec(state, charge_now, charge_full, rate),
{
    if rate == 0 {
        return 0;
    }
    let charge: u64 = if state == BATTERY_DISCHARGING {
        charge_now as u64
    } else if state == BATTERY_CHARGING && charge_full > charge_now {
        (charge_full - charge_now) as u64
    } else {
        return 0;
    };
    let minutes = 60 * charge / rate as u64;
    if minutes > 65535 {
        65535
    } else {
        minutes as u16
    }
}

/// One reading of the battery's files; a file that could not be read or
/// parsed is `None`.
#[derive(Clone, Debug)]
pub struct BatteryReading {
    /// Charge level in percent.
    pub capacity: Option<u32>,
    /// Status text.
    pub status: Option<String>,
    /// Current or power draw.
    pub rate: Option<u32>,
    /// Charge or energy left.
    pub charge_now: Option<u32>,
    /// Charge or energy when full.
    pub charge_full: Option<u32>,
}

/// What a battery reading publishes: percent, state and estimate.
pub open spec fn battery_sample_spec(r: BatteryReading) -> (u8, u8, u16) {
    let percent: u8 = match r.capacity {
        Some(c) => if c > 100 {
            100
        } else {
            c as u8
        },
        None => 100,
    };
    let state = match r.status {
        Some(s) => status_code(vstd::utf8::encode_utf8(s@)),
        None => BATTERY_UNKNOWN,
    };
    let now = match r.charge_now {
        Some(c) => c,
        None => 0,
    };
    let full = match r.charge_full {
        Some(c) => c,
        None => now,
    };
    let rate = match r.rate {
        Some(c) => c,
        None => 0,
    };
    (percent, state, estimate_spec(state, now, full, rate) as u16)
}

/// What a battery reading publishes: the capacity capped at 100 (100 when
/// unknown), the state of the status text, and the estimate, taking the full
/// charge to be the present one when it is unknown.
pub fn battery_sample(r: &BatteryReading) -> (out: (u8, u8, u16))
    ensures
        out == battery_sample_spec(*r),
{
    let percent: u8 = match r.capacity {
        Some(c) => if c > 100 {
            100
        } else {
            c as u8
        },
        None => 100,
    };
    let state = match &r.status {
        Some(s) => battery_status_code(s.as_str()),
        None => BATTERY_UNKNOWN,
    };
    let now = match r.charge_now {
        Some(c) => c,
        None => 0,
    };
    let full = match r.charge_full {
        Some(c) => c,
        None => now,
    };
    let rate = match r.rate {
        Some(c) => c,
        None => 0,
    };
    (percent, state, battery_estimate(state, now, full, rate))
}

/// Publishes a battery reading; returns whether any battery field changed.
pub fn publish_battery_reading(bus: &StateBus, r: &BatteryReading) -> bool {
    let (percent, state, estimate) = battery_sample(r);
    bus.publish_battery(percent, state, estimate)
}

} // verus!
