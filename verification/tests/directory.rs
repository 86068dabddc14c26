//! Tests of the device directory and configuration selection.

use whispering::config::{select_config, ConfigChoice, ConfigRange};
use whispering::devices::{
    is_default_sentinel, resolve_in_scan, should_retry_enumeration, DeviceDirectory, DeviceError,
    ProbeResult, ResolveStep, ScanOutcome,
};

fn probe(name: &str, usable: bool) -> ProbeResult {
    ProbeResult { name: String::from(name), usable }
}

#[test]
fn default_name_is_case_insensitive() {
    assert!(is_default_sentinel(&String::from("default")));
    assert!(is_default_sentinel(&String::from("DEFAULT")));
    assert!(is_default_sentinel(&String::from("Default")));
    assert!(is_default_sentinel(&String::from("dEfAuLt")));
    assert!(!is_default_sentinel(&String::from("defaul")));
    assert!(!is_default_sentinel(&String::from("default ")));
    assert!(!is_default_sentinel(&String::from("standard")));
}

#[test]
fn both_default_spellings_resolve_to_the_host_default() {
    let d = DeviceDirectory::new();
    let upper = d.resolve_step(&String::from("DEFAULT"), 0);
    let lower = d.resolve_step(&String::from("default"), 0);
    assert_eq!(upper, ResolveStep::UseHostDefault);
    assert_eq!(lower, ResolveStep::UseHostDefault);
    assert_eq!(upper, lower);
}

#[test]
fn resolve_follows_the_cache_state() {
    let mut d = DeviceDirectory::new();
    // unknown name: a full rescan comes first
    assert_eq!(d.resolve_step(&String::from("mic"), 0), ResolveStep::RescanAll);
    d.apply_scan(
        &ScanOutcome::Found(vec![probe("mic", true), probe("broken", false)]),
        1000,
    );
    assert_eq!(d.resolve_step(&String::from("mic"), 2000), ResolveStep::Lookup);
    assert_eq!(d.resolve_step(&String::from("broken"), 2000), ResolveStep::Unavailable);
    // a fresh entry goes stale after its probe window
    assert_eq!(d.resolve_step(&String::from("mic"), 6001), ResolveStep::ProbeSingle);
    assert_eq!(d.resolve_step(&String::from("mic"), 6000), ResolveStep::Lookup);
}

#[test]
fn enumerate_is_sorted_and_keeps_only_available() {
    let mut d = DeviceDirectory::new();
    d.apply_scan(
        &ScanOutcome::Found(vec![
            probe("zeta", true),
            probe("alpha", true),
            probe("mid", false),
            probe("beta", true),
        ]),
        0,
    );
    let names = d.available_names();
    assert_eq!(names, vec!["alpha", "beta", "zeta"]);
}

#[test]
fn later_probe_of_the_same_name_wins() {
    let mut d = DeviceDirectory::new();
    d.apply_scan(
        &ScanOutcome::Found(vec![probe("dup", false), probe("dup", true)]),
        0,
    );
    assert_eq!(d.available_names(), vec!["dup"]);
    d.apply_scan(
        &ScanOutcome::Found(vec![probe("dup", true), probe("dup", false)]),
        0,
    );
    assert!(d.available_names().is_empty());
}

#[test]
fn host_error_presumes_cached_devices_still_valid() {
    let mut d = DeviceDirectory::new();
    d.apply_scan(&ScanOutcome::Found(vec![probe("a", true), probe("b", false)]), 0);
    assert_eq!(d.available_names(), vec!["a"]);
    // enumeration failed outright: nothing is dropped, everything is
    // presumed available
    d.apply_scan(&ScanOutcome::HostError, 5);
    assert_eq!(d.available_names(), vec!["a", "b"]);
}

#[test]
fn devices_vanished_from_a_scan_are_unavailable_not_evicted() {
    let mut d = DeviceDirectory::new();
    d.apply_scan(&ScanOutcome::Found(vec![probe("gone", true)]), 0);
    d.apply_scan(&ScanOutcome::Found(vec![probe("new", true)]), 1);
    assert_eq!(d.available_names(), vec!["new"]);
    // the vanished device is still cached, known unavailable
    assert_eq!(d.resolve_step(&String::from("gone"), 2), ResolveStep::Unavailable);
}

#[test]
fn empty_enumeration_earns_exactly_one_rescan() {
    let empty: Vec<String> = Vec::new();
    let some = vec![String::from("mic")];
    // an empty answer before the retry: rescan
    assert!(should_retry_enumeration(&empty, false));
    // still empty after the one retry: answer empty, no third scan
    assert!(!should_retry_enumeration(&empty, true));
    // a non-empty answer goes out at once
    assert!(!should_retry_enumeration(&some, false));
    assert!(!should_retry_enumeration(&some, true));
}

#[test]
fn refresh_window_is_ten_seconds() {
    let mut d = DeviceDirectory::new();
    assert!(d.needs_full_refresh(0));
    d.apply_scan(&ScanOutcome::Found(vec![]), 0);
    assert!(!d.needs_full_refresh(10000));
    assert!(d.needs_full_refresh(10001));
}

#[test]
fn single_probe_updates_one_entry() {
    let mut d = DeviceDirectory::new();
    d.apply_scan(&ScanOutcome::Found(vec![probe("m", false)]), 0);
    d.apply_single_probe(&String::from("m"), Some(true), 7);
    assert_eq!(d.available_names(), vec!["m"]);
    // probing a name the host no longer reports marks it unavailable
    d.apply_single_probe(&String::from("m"), None, 8);
    assert!(d.available_names().is_empty());
    // probing an unknown name inserts it
    d.apply_single_probe(&String::from("n"), Some(true), 9);
    assert_eq!(d.available_names(), vec!["n"]);
}

#[test]
fn scan_lookup_takes_the_first_match_and_checks_usability() {
    let scan = vec![probe("x", true), probe("y", false), probe("y", true)];
    assert_eq!(resolve_in_scan(&scan, &String::from("x")), Ok(0));
    // the first probe of that name decides
    assert_eq!(
        resolve_in_scan(&scan, &String::from("y")),
        Err(DeviceError::DeviceUnavailable)
    );
    assert_eq!(
        resolve_in_scan(&scan, &String::from("z")),
        Err(DeviceError::DeviceNotFound)
    );
}

fn cfg(channels: u16, min_rate: u32, max_rate: u32) -> ConfigRange {
    ConfigRange { channels, min_rate, max_rate }
}

#[test]
fn mono_at_target_beats_everything() {
    let configs = vec![cfg(2, 8000, 48000), cfg(1, 8000, 48000), cfg(1, 16000, 16000)];
    let choice = select_config(&configs, None).unwrap();
    assert_eq!(choice, ConfigChoice::Selected { index: 1, rate: 16000 });
}

#[test]
fn multi_channel_at_target_comes_second() {
    let configs = vec![cfg(2, 8000, 48000), cfg(1, 44100, 48000)];
    let choice = select_config(&configs, None).unwrap();
    assert_eq!(choice, ConfigChoice::Selected { index: 0, rate: 16000 });
}

#[test]
fn closest_mono_rate_comes_third() {
    // no range holds 16 kHz; among the mono ranges, clamping to
    // 8 kHz lands closer than clamping to 48 kHz
    let configs = vec![cfg(2, 44100, 44100), cfg(1, 48000, 48000), cfg(1, 4000, 8000)];
    let choice = select_config(&configs, Some(16000)).unwrap();
    assert_eq!(choice, ConfigChoice::Selected { index: 2, rate: 8000 });
}

#[test]
fn preferred_rate_replaces_the_default_target() {
    let configs = vec![cfg(1, 8000, 96000)];
    let choice = select_config(&configs, Some(44100)).unwrap();
    assert_eq!(choice, ConfigChoice::Selected { index: 0, rate: 44100 });
}

#[test]
fn first_of_equally_close_mono_wins() {
    let configs = vec![cfg(1, 12000, 12000), cfg(1, 20000, 20000)];
    let choice = select_config(&configs, Some(16000)).unwrap();
    assert_eq!(choice, ConfigChoice::Selected { index: 0, rate: 12000 });
}

#[test]
fn no_mono_and_no_fit_falls_back_to_device_default() {
    let configs = vec![cfg(2, 44100, 48000), cfg(4, 96000, 96000)];
    let choice = select_config(&configs, Some(16000)).unwrap();
    assert_eq!(choice, ConfigChoice::UseDefault);
}

#[test]
fn no_configurations_is_an_error() {
    let configs: Vec<ConfigRange> = Vec::new();
    assert!(select_config(&configs, None).is_err());
}
