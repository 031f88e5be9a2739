use battery_monitor::battery::{raw_average, readings_total, LogLevel, Sampler, Status};
use battery_monitor::control::ADC_READ_REPETITION;

#[test]
fn show_full_is_info() {
    let line = Status::Full.show("GPIO0", "Measurement { pin_id: 0 }");
    assert_eq!(line.level, LogLevel::Info);
    assert_eq!(line.text, "GPIO0: Measurement { pin_id: 0 }");
}

#[test]
fn show_to_replace_is_error() {
    let line = Status::ToReplace.show("msg", "details");
    assert_eq!(line.level, LogLevel::Error);
    assert_eq!(line.text, "msg: details");
}

#[test]
fn show_init_is_warn() {
    let line = Status::Init.show("msg", "details");
    assert_eq!(line.level, LogLevel::Warn);
    assert_eq!(line.text, "msg: details");
}

#[test]
fn show_unknown_warns_about_cables() {
    let line = Status::Unknown.show("msg", "details");
    assert_eq!(line.level, LogLevel::Warn);
    assert_eq!(
        line.text,
        "verify battery and cables, value is too low!!! \nmsg  details"
    );
}

#[test]
fn assess_rule_table() {
    assert_eq!(Status::assess(true, true), Status::Unknown);
    assert_eq!(Status::assess(true, false), Status::Unknown);
    assert_eq!(Status::assess(false, true), Status::ToReplace);
    assert_eq!(Status::assess(false, false), Status::Full);
}

fn assess_voltage(voltage: f32, boundary: f32) -> Status {
    Status::assess(voltage < boundary / 2.0, voltage < boundary)
}

#[test]
fn assess_disconnected_battery_is_unknown() {
    // raw 5 mV times a divider coefficient of about 4.97
    assert_eq!(assess_voltage(27.335, 3500.0), Status::Unknown);
}

#[test]
fn assess_low_battery_is_to_replace() {
    assert_eq!(assess_voltage(3300.0, 3500.0), Status::ToReplace);
}

#[test]
fn assess_charged_battery_is_full() {
    assert_eq!(assess_voltage(4138.0, 3500.0), Status::Full);
}

#[test]
fn assess_at_boundaries() {
    assert_eq!(assess_voltage(1750.0, 3500.0), Status::ToReplace);
    assert_eq!(assess_voltage(1749.9, 3500.0), Status::Unknown);
    assert_eq!(assess_voltage(3500.0, 3500.0), Status::Full);
}

#[test]
fn assess_never_gives_init_and_is_monotone() {
    let boundary = 3500.0f32;
    let voltages = [0.0f32, 100.0, 1749.0, 1750.0, 2000.0, 3499.0, 3500.0, 5000.0];
    let rank = |s: Status| match s {
        Status::Unknown => 0,
        Status::ToReplace => 1,
        Status::Full => 2,
        Status::Init => -1,
    };
    let mut previous = -1;
    for v in voltages {
        let s = assess_voltage(v, boundary);
        assert_ne!(s, Status::Init);
        assert!(rank(s) >= previous);
        previous = rank(s);
    }
}

#[test]
fn total_of_readings() {
    assert_eq!(readings_total(&[800, 810, 820]), Some(2430));
    assert_eq!(readings_total(&[]), Some(0));
    assert_eq!(readings_total(&[65535]), Some(65535));
}

#[test]
fn total_overflow_is_none() {
    assert_eq!(readings_total(&[65535, 1]), None);
    assert_eq!(readings_total(&[40000, 30000, 0]), None);
    assert_eq!(readings_total(&[30000, 30000, 5535]), Some(65535));
}

#[test]
fn raw_average_truncates() {
    // readings of 5 and one of 6 average to 5.1
    let readings = [5u16, 5, 5, 5, 5, 5, 5, 5, 5, 6];
    let total = readings_total(&readings).unwrap();
    assert_eq!(total, 51);
    assert_eq!(raw_average(total, readings.len()), 5);
    assert_eq!(raw_average(8100, 10), 810);
    assert_eq!(raw_average(19, 10), 1);
    assert_eq!(raw_average(9, 10), 0);
}

#[test]
fn raw_average_of_nothing_is_zero() {
    assert_eq!(raw_average(0, 0), 0);
    assert_eq!(raw_average(123, 0), 0);
}

#[test]
fn raw_average_lies_between_min_and_max() {
    let readings = [812u16, 808, 815, 790, 820, 805, 811, 809, 799, 818];
    let total = readings_total(&readings).unwrap();
    let mean = raw_average(total, readings.len());
    assert_eq!(mean, 808);
    assert!(mean >= *readings.iter().min().unwrap());
    assert!(mean <= *readings.iter().max().unwrap());
}

#[test]
fn sampler_collects_a_full_batch_in_order() {
    let mut sampler = Sampler::new();
    assert!(!sampler.is_complete());
    let mut expected = Vec::new();
    let mut count = 0u8;
    while !sampler.is_complete() {
        let value = 800 + u16::from(count);
        let index = sampler.record(value);
        count += 1;
        assert_eq!(index, count);
        expected.push(value);
    }
    assert_eq!(count, ADC_READ_REPETITION);
    assert_eq!(sampler.into_readings(), expected);
}

#[test]
fn sampler_starts_empty() {
    let sampler = Sampler::new();
    assert!(!sampler.is_complete());
    assert!(sampler.into_readings().is_empty());
}

#[test]
fn total_and_mean_ignore_reading_order() {
    let a = [812u16, 808, 815, 790, 820];
    let b = [820u16, 790, 812, 815, 808];
    let ta = readings_total(&a).unwrap();
    let tb = readings_total(&b).unwrap();
    assert_eq!(ta, tb);
    assert_eq!(raw_average(ta, a.len()), raw_average(tb, b.len()));
    assert_eq!(readings_total(&[65535, 1]), readings_total(&[1, 65535]));
}
