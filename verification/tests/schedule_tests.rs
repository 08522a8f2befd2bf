use libredefender::args::Scan;
use libredefender::config::{Config, ScanConfig, ScheduleConfig, UpdateConfig};
use libredefender::db::Data;
use libredefender::errors::Error;
use libredefender::nice::setup;
use libredefender::schedule::{
    compute_sleep, plan_cycle, policy_allows_scans, sleep_chunk, PreferedHours,
};

const DAY: i64 = 86400;

fn tod(h: u32, m: u32, s: u32) -> u32 {
    h * 3600 + m * 60 + s
}

fn test_config(schedule: ScheduleConfig) -> Config {
    Config {
        scan: ScanConfig::new(),
        update: UpdateConfig { path: "/var/lib/clamav".to_string() },
        schedule,
    }
}

#[test]
fn test_parse_preferred_hours() {
    let ph = PreferedHours::from_str("19:00:00-09:00:00").unwrap();
    assert_eq!(ph, PreferedHours::from_hms(19, 0, 0, 9, 0, 0));
}

#[test]
fn test_parse_preferred_hours_invalid() {
    PreferedHours::from_str("a").err().unwrap();
    PreferedHours::from_str("a-").err().unwrap();
    PreferedHours::from_str("a--").err().unwrap();
    PreferedHours::from_str("a-b").err().unwrap();
    PreferedHours::from_str("1-b").err().unwrap();
    PreferedHours::from_str("a-2").err().unwrap();
    PreferedHours::from_str("1-2-").err().unwrap();
    PreferedHours::from_str("1-2b").err().unwrap();
    PreferedHours::from_str("1-2").err().unwrap();
    PreferedHours::from_str("1:-2:").err().unwrap();
}

#[test]
fn parse_preferred_hours_error_kinds() {
    assert_eq!(PreferedHours::from_str("a--").err().unwrap(), Error::InvalidPreferredHours);
    assert_eq!(PreferedHours::from_str("a").err().unwrap(), Error::InvalidPreferredHours);
    assert_eq!(PreferedHours::from_str("a-b").err().unwrap(), Error::InvalidTimeOfDay);
}

#[test]
fn test_until_next_preferred_hour_start() {
    let now = tod(13, 37, 0);
    let ph = PreferedHours::from_str("19:00:00-09:00:00").unwrap();
    let duration = ph.until_next_start(now);
    assert_eq!(duration as u64, 5 * 3600 + 23 * 60);
}

#[test]
fn test_until_next_preferred_hour_end() {
    let now = tod(13, 37, 0);
    let ph = PreferedHours::from_str("19:00:00-09:00:00").unwrap();
    let duration = ph.until_next_end(now);
    assert_eq!(duration as u64, 19 * 3600 + 23 * 60);
}

#[test]
fn test_until_next_preferred_hour_start_now() {
    let now = tod(23, 37, 0);
    let ph = PreferedHours::from_str("19:00:00-09:00:00").unwrap();
    let duration = ph.until_next_start(now);
    assert_eq!(duration, 0);
}

#[test]
fn test_until_next_preferred_hour_end_now() {
    let now = tod(23, 37, 0);
    let ph = PreferedHours::from_str("19:00:00-09:00:00").unwrap();
    let duration = ph.until_next_end(now);
    assert_eq!(duration as u64, 9 * 3600 + 23 * 60);
}

#[test]
fn test_until_next_preferred_hour_start_now2() {
    let now = tod(13, 37, 0);
    let ph = PreferedHours::from_str("09:00:00-19:00:00").unwrap();
    let duration = ph.until_next_start(now);
    assert_eq!(duration, 0);
}

#[test]
fn test_until_next_preferred_hour_end_now2() {
    let now = tod(13, 37, 0);
    let ph = PreferedHours::from_str("09:00:00-19:00:00").unwrap();
    let duration = ph.until_next_end(now);
    assert_eq!(duration as u64, 5 * 3600 + 23 * 60);
}

#[test]
fn test_until_next_preferred_hour_start_later() {
    let now = tod(9, 0, 0);
    let ph = PreferedHours::from_str("13:37:00-23:00:00").unwrap();
    let duration = ph.until_next_start(now);
    assert_eq!(duration as u64, 4 * 3600 + 37 * 60);
}

#[test]
fn test_until_next_preferred_hour_end_later() {
    let now = tod(9, 0, 0);
    let ph = PreferedHours::from_str("13:37:00-23:00:00").unwrap();
    let duration = ph.until_next_end(now);
    assert_eq!(duration as u64, 14 * 3600);
}

#[test]
fn test_until_next_preferred_hour_start_tomorrow() {
    let now = tod(13, 37, 0);
    let ph = PreferedHours::from_str("4:00:00-9:00:00").unwrap();
    let duration = ph.until_next_start(now);
    assert_eq!(duration as u64, 14 * 3600 + 23 * 60);
}

#[test]
fn test_until_next_preferred_hour_end_tomorrow() {
    let now = tod(13, 37, 0);
    let ph = PreferedHours::from_str("4:00:00-9:00:00").unwrap();
    let duration = ph.until_next_end(now);
    assert_eq!(duration as u64, 19 * 3600 + 23 * 60);
}

#[test]
fn sleep_chunks_are_bounded() {
    assert_eq!(sleep_chunk(0), None);
    assert_eq!(sleep_chunk(-5), None);
    assert_eq!(sleep_chunk(1), Some(1));
    assert_eq!(sleep_chunk(599), Some(599));
    assert_eq!(sleep_chunk(600), Some(600));
    assert_eq!(sleep_chunk(7 * 3600), Some(600));
}

#[test]
fn sleep_is_zero_without_prior_scan() {
    assert_eq!(compute_sleep(None, 1_620_000_000, tod(12, 0, 0), None), Ok(0));
}

#[test]
fn sleep_is_zero_when_overdue() {
    let now = 1_620_000_000;
    assert_eq!(compute_sleep(Some(now - DAY - 1), now, tod(12, 0, 0), None), Ok(0));
}

#[test]
fn sleep_fills_the_interval_without_preferred_hours() {
    let now = 1_620_000_000;
    assert_eq!(compute_sleep(Some(now - 1000), now, tod(12, 0, 0), None), Ok((DAY - 1000) as u64));
    assert_eq!(compute_sleep(Some(now), now, tod(12, 0, 0), None), Ok(DAY as u64));
}

#[test]
fn sleep_lands_inside_preferred_hours() {
    let now = 1_620_000_000;
    let ph = PreferedHours::from_hms(19, 0, 0, 9, 0, 0);
    let t = tod(13, 37, 0);
    let delay = compute_sleep(Some(now - 1000), now, t, Some(&ph)).unwrap();
    let until_start = (5 * 3600 + 23 * 60) as u64;
    let until_end = (19 * 3600 + 23 * 60) as u64;
    assert!(until_start <= delay && delay < until_end);
}

#[test]
fn empty_preferred_window_is_a_configuration_error() {
    let now = 1_620_000_000;
    let ph = PreferedHours::from_hms(9, 0, 0, 9, 0, 0);
    assert_eq!(
        compute_sleep(Some(now - 1000), now, tod(12, 0, 0), Some(&ph)),
        Err(Error::EmptyPreferredWindow)
    );
}

#[test]
fn policy_values() {
    assert!(policy_allows_scans(&None));
    assert!(policy_allows_scans(&Some("daily".to_string())));
    assert!(!policy_allows_scans(&Some("off".to_string())));
    assert!(!policy_allows_scans(&Some("weekly".to_string())));
}

#[test]
fn cycle_skipped_when_config_is_missing() {
    let plan = plan_cycle(None, None, None, 1_620_000_000, tod(12, 0, 0));
    assert!(!plan.is_scan());
}

#[test]
fn cycle_skipped_on_discharging_battery() {
    let mut schedule = ScheduleConfig::new();
    schedule.skip_on_battery = true;
    let config = test_config(schedule);
    let data = Data::new();
    let states = vec![false, true];
    let plan = plan_cycle(Some(&config), Some(&states), Some(&data), 1_620_000_000, tod(12, 0, 0));
    assert!(!plan.is_scan());
    // Unreadable power sources also skip the cycle.
    let plan = plan_cycle(Some(&config), None, Some(&data), 1_620_000_000, tod(12, 0, 0));
    assert!(!plan.is_scan());
}

#[test]
fn cycle_proceeds_without_batteries() {
    let mut schedule = ScheduleConfig::new();
    schedule.skip_on_battery = true;
    let config = test_config(schedule);
    let data = Data::new();
    let states: Vec<bool> = Vec::new();
    let plan = plan_cycle(Some(&config), Some(&states), Some(&data), 1_620_000_000, tod(12, 0, 0));
    assert_eq!(plan.delay(), Some(0));
}

#[test]
fn cycle_skipped_when_scans_are_off() {
    let mut schedule = ScheduleConfig::new();
    schedule.automatic_scans = Some("off".to_string());
    let config = test_config(schedule);
    let data = Data::new();
    let plan = plan_cycle(Some(&config), None, Some(&data), 1_620_000_000, tod(12, 0, 0));
    assert!(!plan.is_scan());
}

#[test]
fn cycle_skipped_when_state_is_missing() {
    let config = test_config(ScheduleConfig::new());
    let plan = plan_cycle(Some(&config), None, None, 1_620_000_000, tod(12, 0, 0));
    assert!(!plan.is_scan());
}

#[test]
fn cycle_scans_immediately_without_prior_scan() {
    let config = test_config(ScheduleConfig::new());
    let data = Data::new();
    let plan = plan_cycle(Some(&config), None, Some(&data), 1_620_000_000, tod(12, 0, 0));
    assert_eq!(plan.delay(), Some(0));
}

#[test]
fn cycle_delays_into_preferred_hours() {
    let mut schedule = ScheduleConfig::new();
    schedule.preferred_hours = Some(PreferedHours::from_hms(19, 0, 0, 9, 0, 0));
    let config = test_config(schedule);
    let now = 1_620_000_000;
    let mut data = Data::new();
    data.finish_run(now - 1000);
    let plan = plan_cycle(Some(&config), None, Some(&data), now, tod(13, 37, 0));
    let delay = plan.delay().unwrap();
    assert!((5 * 3600 + 23 * 60) <= delay && delay < (19 * 3600 + 23 * 60));
}

#[test]
fn cycle_skipped_on_empty_preferred_window() {
    let mut schedule = ScheduleConfig::new();
    schedule.preferred_hours = Some(PreferedHours::from_hms(9, 0, 0, 9, 0, 0));
    let config = test_config(schedule);
    let now = 1_620_000_000;
    let mut data = Data::new();
    data.finish_run(now - 1000);
    let plan = plan_cycle(Some(&config), None, Some(&data), now, tod(13, 37, 0));
    assert!(!plan.is_scan());
}

#[test]
fn setup_never_fails() {
    assert!(setup().is_ok());
}

#[test]
fn scan_arguments_default_to_empty() {
    let args = Scan::new();
    assert!(args.paths.is_empty());
    assert!(args.concurrency.is_none());
}

#[test]
fn test_serialize_preferred_hours() {
    let txt = "13:37:00-23:00:00";
    let p = PreferedHours::from_str(txt).unwrap();
    assert_eq!(p.to_text(), "13:37:00-23:00:00");
}

#[test]
fn preferred_hours_text_is_zero_padded() {
    let p = PreferedHours::from_hms(4, 0, 0, 9, 5, 7);
    assert_eq!(p.to_text(), "04:00:00-09:05:07");
}
