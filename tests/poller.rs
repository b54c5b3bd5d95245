use leanbar::poller::{
    battery_estimate, battery_sample, battery_status_code, clock_update, publish_battery_reading,
    publish_clock, tick_clock, two_digit_year, BatteryReading, ClockReading, PollSchedule,
};
use leanbar::StateBus;

#[test]
fn two_digit_years() {
    assert_eq!(two_digit_year(2026), 26);
    assert_eq!(two_digit_year(2000), 0);
    assert_eq!(two_digit_year(1999), 99);
    assert_eq!(two_digit_year(-1), 99);
}

#[test]
fn clock_update_publishes_changes_only() {
    let now = ClockReading { hour: 21, minute: 7, day: 18, month: 10, year: 2026 };
    let u = clock_update(7, 18, &now);
    assert!(u.time.is_none() && u.date.is_none());
    let u = clock_update(6, 18, &now);
    assert_eq!(u.time, Some((21, 7)));
    assert!(u.date.is_none());
    let u = clock_update(7, 17, &now);
    assert_eq!(u.date, Some((18, 10, 26)));
    let bus = StateBus::new();
    let u = clock_update(bus.minute(), bus.day(), &now);
    assert!(publish_clock(&bus, &u));
    let s = bus.snapshot();
    assert_eq!((s.hour, s.minute, s.day, s.month, s.year), (21, 7, 18, 10, 26));
    assert!(!publish_clock(&bus, &clock_update(bus.minute(), bus.day(), &now)));
}

#[test]
fn local_clock_is_in_range_when_available() {
    let bus = StateBus::new();
    if tick_clock(&bus) {
        let s = bus.snapshot();
        assert!(s.hour < 24 && s.minute < 60);
        assert!((1..=31).contains(&s.day) && (1..=12).contains(&s.month) && s.year < 100);
    }
}

#[test]
fn estimates() {
    // discharging: 60 * 3000 / 1500
    assert_eq!(battery_estimate(1, 3000, 9000, 1500), 120);
    // charging: 60 * (4000 - 3000) / 1000
    assert_eq!(battery_estimate(2, 3000, 4000, 1000), 60);
    assert_eq!(battery_estimate(2, 4000, 4000, 1000), 0);
    assert_eq!(battery_estimate(2, 5000, 4000, 1000), 0);
    assert_eq!(battery_estimate(1, 3000, 4000, 0), 0);
    assert_eq!(battery_estimate(0, 3000, 4000, 10), 0);
    assert_eq!(battery_estimate(3, 3000, 4000, 10), 0);
    assert_eq!(battery_estimate(1, 4_000_000_000, 0, 1), 65535);
    // 60 * 100 / 7 = 857.14
    assert_eq!(battery_estimate(1, 100, 0, 7), 857);
}

#[test]
fn status_codes() {
    assert_eq!(battery_status_code("Discharging\n"), 1);
    assert_eq!(battery_status_code("Charging"), 2);
    assert_eq!(battery_status_code(" Full "), 3);
    assert_eq!(battery_status_code("\u{a0}Charging\u{2003}"), 2);
    assert_eq!(battery_status_code("Not charging"), 0);
    assert_eq!(battery_status_code("full"), 0);
    assert_eq!(battery_status_code(""), 0);
}

#[test]
fn battery_samples() {
    let r = BatteryReading {
        capacity: Some(57),
        status: Some("Charging\n".to_string()),
        rate: Some(2000),
        charge_now: Some(3000),
        charge_full: None,
    };
    // full charge unknown: taken to be the present one, so no estimate
    assert_eq!(battery_sample(&r), (57, 2, 0));
    let r = BatteryReading { charge_full: Some(5000), ..r };
    assert_eq!(battery_sample(&r), (57, 2, 60));
    let none = BatteryReading {
        capacity: None,
        status: None,
        rate: None,
        charge_now: None,
        charge_full: None,
    };
    assert_eq!(battery_sample(&none), (100, 0, 0));
    let over = BatteryReading { capacity: Some(180), ..none.clone() };
    assert_eq!(battery_sample(&over).0, 100);
    let bus = StateBus::new();
    assert!(publish_battery_reading(&bus, &r));
    assert!(!publish_battery_reading(&bus, &r));
    let s = bus.snapshot();
    assert_eq!((s.battery_percent, s.battery_state, s.battery_estimate), (57, 2, 60));
}

#[test]
fn battery_sampled_every_thirtieth_tick() {
    let mut sched = PollSchedule::new();
    let samples: Vec<bool> = (0..61).map(|_| sched.advance(1)).collect();
    let at: Vec<usize> = samples.iter().enumerate().filter(|(_, s)| **s).map(|(i, _)| i).collect();
    assert_eq!(at, vec![0, 30, 60]);
    let mut sched = PollSchedule::new();
    assert!(!(0..60).any(|_| sched.advance(255)));
}
