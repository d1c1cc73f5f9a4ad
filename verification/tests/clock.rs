use stratos::time::Clock;
use stratos::time::DateTime;
use stratos::time::bcd_to_binary;
use stratos::time::days_in_month;
use stratos::time::days_in_year;
use stratos::time::is_leap_year;
use stratos::time::secs_to_ymd_hms;
use stratos::time::ymd_hms_to_secs;

fn dt(year: u16, month: u8, day: u8, hour: u8, minute: u8, second: u8) -> DateTime {
    DateTime { year, month, day, hour, minute, second }
}

#[test]
fn leap_year_rules() {
    assert!(is_leap_year(2000));
    assert!(!is_leap_year(1900));
    assert!(is_leap_year(2024));
    assert!(!is_leap_year(2023));
    assert_eq!(days_in_year(2024), 366);
    assert_eq!(days_in_year(2023), 365);
}

#[test]
fn month_lengths() {
    assert_eq!(days_in_month(2024, 2), 29);
    assert_eq!(days_in_month(2023, 2), 28);
    assert_eq!(days_in_month(2023, 4), 30);
    assert_eq!(days_in_month(2023, 12), 31);
}

#[test]
fn bcd_decoding() {
    assert_eq!(bcd_to_binary(0x59), 59);
    assert_eq!(bcd_to_binary(0x00), 0);
    assert_eq!(bcd_to_binary(0x31), 31);
}

#[test]
fn epoch_conversions_known_values() {
    assert_eq!(ymd_hms_to_secs(1970, 1, 1, 0, 0, 0), 0);
    assert_eq!(ymd_hms_to_secs(2000, 1, 1, 0, 0, 0), 946_684_800);
    assert_eq!(ymd_hms_to_secs(2024, 2, 29, 12, 0, 0), 1_709_208_000);
}

#[test]
fn epoch_round_trips() {
    for &secs in &[0u64, 1, 59, 86399, 86400, 946_684_800, 1_709_208_000, 4_102_444_799] {
        let (y, m, d, h, mi, s) = secs_to_ymd_hms(secs);
        assert_eq!(ymd_hms_to_secs(y, m, d, h, mi, s), secs, "round trip of {}", secs);
    }
    let (y, m, d, h, mi, s) = secs_to_ymd_hms(1_709_208_000);
    assert_eq!((y, m, d, h, mi, s), (2024, 2, 29, 12, 0, 0));
}

#[test]
fn clock_starts_uninitialized() {
    let clock = Clock::new();
    assert!(clock.current_time_secs().is_none());
    assert_eq!(clock.format_hud_time(), "--/--/---- --:--:--");
}

#[test]
fn clock_counts_uptime() {
    let mut clock = Clock::new();
    clock.init_time(dt(2000, 1, 1, 0, 0, 0));
    assert_eq!(clock.current_time_secs(), Some(946_684_800));
    clock.tick_second();
    clock.tick_second();
    clock.tick_second();
    assert_eq!(clock.current_time_secs(), Some(946_684_803));
}

#[test]
fn hud_time_formats() {
    let mut clock = Clock::new();
    clock.init_time(dt(2034, 1, 2, 3, 4, 5));
    assert_eq!(clock.format_hud_time(), "01/02/2034 03:04:05");
    clock.set_24h(false);
    assert_eq!(clock.format_hud_time(), "01/02/2034 03:04:05 AM");
    let mut evening = Clock::new();
    evening.set_24h(false);
    evening.init_time(dt(2034, 1, 2, 13, 4, 5));
    assert_eq!(evening.format_hud_time(), "01/02/2034 01:04:05 PM");
    let mut midnight = Clock::new();
    midnight.set_24h(false);
    midnight.init_time(dt(2034, 1, 2, 0, 4, 5));
    assert_eq!(midnight.format_hud_time(), "01/02/2034 12:04:05 AM");
}

#[test]
fn time_command_sets_format_and_syncs() {
    let mut clock = Clock::new();
    clock.init_time(dt(2020, 6, 1, 10, 0, 0));
    let rtc = dt(2020, 6, 1, 10, 0, 30);
    let args: Vec<String> = vec!["sync".to_string()];
    let lines = stratos::commands::time_cmd(&mut clock, &args, 0, rtc);
    assert_eq!(lines, vec!["Time re-synced to RTC.".to_string()]);
    assert_eq!(
        clock.current_time_secs(),
        Some(ymd_hms_to_secs(2020, 6, 1, 10, 0, 30)),
    );
    // within tolerance nothing changes
    let rtc2 = dt(2020, 6, 1, 10, 0, 31);
    let lines2 = stratos::commands::time_cmd(&mut clock, &args, 0, rtc2);
    assert_eq!(lines2, vec!["Clock is in sync with RTC.".to_string()]);
    let args24: Vec<String> = vec!["24hr".to_string()];
    let lines3 = stratos::commands::time_cmd(&mut clock, &args24, 0, rtc2);
    assert_eq!(lines3, vec!["Set time format: 24-hour".to_string()]);
    let args12: Vec<String> = vec!["12hr".to_string()];
    let lines4 = stratos::commands::time_cmd(&mut clock, &args12, 0, rtc2);
    assert_eq!(lines4, vec!["Set time format: 12-hour".to_string()]);
}

#[test]
fn time_command_default_prints_stamp() {
    let mut clock = Clock::new();
    let rtc = dt(2021, 12, 31, 23, 59, 58);
    let args: Vec<String> = Vec::new();
    let lines = stratos::commands::time_cmd(&mut clock, &args, 0, rtc);
    assert_eq!(lines, vec!["Time not initialized yet.".to_string()]);
    clock.init_time(rtc);
    let lines2 = stratos::commands::time_cmd(&mut clock, &args, 0, rtc);
    assert_eq!(lines2, vec!["2021-12-31 23:59:58".to_string()]);
}

#[test]
fn timer_ticks_and_seconds() {
    let mut t = stratos::timer::Ticker::new();
    let mut seconds_seen = 0u64;
    for _ in 0..250 {
        if t.on_tick() {
            seconds_seen += 1;
        }
    }
    assert_eq!(t.ticks(), 250);
    assert_eq!(t.seconds(), 2);
    assert_eq!(seconds_seen, 2);
    assert_eq!(stratos::timer::frequency(), 100);
}

#[test]
fn wait_deadlines() {
    let w = stratos::wait::Wait::sec(100, 2);
    assert!(!w.done(299));
    assert!(w.done(300));
    assert_eq!(w.remaining(250), 50);
    assert_eq!(w.remaining(400), 0);
    let m = stratos::wait::Wait::ms(0, 1500);
    assert!(!m.done(149));
    assert!(m.done(150));
}
