use winsoftvol::config::{
    active_device_config, default_cap_presets, default_night_cap, default_scroll_step,
    default_true, migrated_config, parse_hm, sanitize_presets, Config, DeviceConfig, GeneralConfig,
};

#[test]
fn default_scroll_step_is_two() {
    assert_eq!(default_scroll_step(), 2);
    assert_eq!(GeneralConfig::default().scroll_step_percent, 2);
}

#[test]
fn scroll_step_sanitize_clamps_to_range() {
    let mut g = GeneralConfig::default();
    g.scroll_step_percent = 50;
    g.sanitize();
    assert_eq!(g.scroll_step_percent, 20);

    g.scroll_step_percent = 0;
    g.sanitize();
    assert_eq!(g.scroll_step_percent, 1);
}

#[test]
fn default_config_has_sane_values() {
    let cfg = Config::default();
    assert!(!cfg.general.autostart);
    assert!(!cfg.default.force_sw_volume);
    assert_eq!(cfg.default.cap_percent, 100);
    assert!(cfg.device.is_empty());
    assert_eq!(cfg.general.cap_presets, vec![100, 80, 60, 40]);
}

#[test]
fn default_cap_presets_are_descending() {
    let presets = default_cap_presets();
    for w in presets.windows(2) {
        assert!(w[0] > w[1]);
    }
}

#[test]
fn default_cap_presets_in_valid_range() {
    for p in default_cap_presets() {
        assert!((10..=100).contains(&p));
    }
}

#[test]
fn cap_presets_sanitize_clamps_and_deduplicates() {
    let mut g = GeneralConfig::default();
    g.cap_presets = vec![120, 100, 50, 50, 5];
    g.sanitize();
    assert_eq!(g.cap_presets, vec![100, 50, 10]);
}

#[test]
fn cap_presets_sanitize_empty_restores_default() {
    let mut g = GeneralConfig::default();
    g.cap_presets = vec![];
    g.sanitize();
    assert_eq!(g.cap_presets, default_cap_presets());
}

#[test]
fn cap_presets_sanitize_sorts_descending() {
    let mut g = GeneralConfig::default();
    g.cap_presets = vec![40, 100, 60];
    g.sanitize();
    assert_eq!(g.cap_presets, vec![100, 60, 40]);
}

/// `[default] force_sw_volume = false, cap_percent = 100` and
/// `[device."my-device"] force_sw_volume = true, cap_percent = 60`.
#[test]
fn resolve_device_returns_device_specific_when_present() {
    let mut cfg = Config::default();
    cfg.default = DeviceConfig {
        force_sw_volume: false,
        cap_percent: 100,
    };
    cfg.device.insert(
        "my-device".to_string(),
        DeviceConfig {
            force_sw_volume: true,
            cap_percent: 60,
        },
    );
    let resolved = cfg.resolve_device("my-device");
    assert!(resolved.force_sw_volume);
    assert_eq!(resolved.cap_percent, 60);
}

#[test]
fn resolve_device_falls_back_to_default() {
    let cfg = Config::default();
    let resolved = cfg.resolve_device("unknown-device-id");
    assert_eq!(resolved.cap_percent, 100);
    assert!(!resolved.force_sw_volume);
}

/// `[default] force_sw_volume = false, cap_percent = 0`.
#[test]
fn cap_percent_zero_clamped_to_10_on_load() {
    let mut cfg2 = Config::default();
    cfg2.default = DeviceConfig {
        force_sw_volume: false,
        cap_percent: 0,
    };
    cfg2.sanitize_devices();
    assert_eq!(cfg2.default.cap_percent, 10);
}

/// `[default] force_sw_volume = false, cap_percent = 150`.
#[test]
fn cap_percent_over_100_clamped_on_load() {
    let mut cfg = Config::default();
    cfg.default = DeviceConfig {
        force_sw_volume: false,
        cap_percent: 150,
    };
    cfg.sanitize_devices();
    assert_eq!(cfg.default.cap_percent, 100);
}

#[test]
fn night_cap_default_is_40() {
    assert_eq!(default_night_cap(), 40);
    assert_eq!(GeneralConfig::default().night_cap, 40);
}

#[test]
fn parse_hm_valid() {
    assert_eq!(parse_hm("22:00"), Some(22 * 60));
    assert_eq!(parse_hm("07:30"), Some(7 * 60 + 30));
    assert_eq!(parse_hm("00:00"), Some(0));
    assert_eq!(parse_hm("23:59"), Some(23 * 60 + 59));
}

#[test]
fn parse_hm_invalid() {
    assert_eq!(parse_hm("24:00"), None);
    assert_eq!(parse_hm("22:60"), None);
    assert_eq!(parse_hm("not-a-time"), None);
    assert_eq!(parse_hm(""), None);
    assert_eq!(parse_hm("22"), None);
}

#[test]
fn night_window_minutes_none_when_times_missing() {
    let cfg = GeneralConfig::default();
    assert!(cfg.night_window_minutes().is_none());
}

#[test]
fn night_window_minutes_none_when_disabled() {
    let mut cfg = GeneralConfig::default();
    cfg.night_start = Some("22:00".to_string());
    cfg.night_end = Some("07:00".to_string());
    cfg.night_enabled = false;
    assert!(cfg.night_window_minutes().is_none());
}

#[test]
fn night_window_minutes_returns_parsed_values() {
    let mut cfg = GeneralConfig::default();
    cfg.night_start = Some("22:00".to_string());
    cfg.night_end = Some("07:00".to_string());
    assert_eq!(cfg.night_window_minutes(), Some((22 * 60, 7 * 60)));
}

#[test]
fn devices_missing_means_all_allowed() {
    let cfg = Config::default();
    assert!(cfg.device_allowed("anything"));
}

/// `[general] devices = ["A", "B"]`.
#[test]
fn devices_restrict_allowed_set() {
    let mut cfg = Config::default();
    cfg.general.devices = Some(vec!["A".to_string(), "B".to_string()]);
    assert!(cfg.device_allowed("A"));
    assert!(cfg.device_allowed("B"));
    assert!(!cfg.device_allowed("C"));
}

/// `[general] devices = [" A ", "A", "", "B"]`.
#[test]
fn devices_sanitize_trims_and_deduplicates() {
    let mut cfg = Config::default();
    cfg.general.devices = Some(vec![
        " A ".to_string(),
        "A".to_string(),
        "".to_string(),
        "B".to_string(),
    ]);
    cfg.sanitize_devices();
    assert_eq!(
        cfg.general.devices,
        Some(vec!["A".to_string(), "B".to_string()])
    );
}

/// `[general] startup_volume = 50`.
#[test]
fn startup_volume_present_and_valid_unchanged() {
    let mut cfg = Config::default();
    cfg.general.startup_volume = Some(50);
    cfg.sanitize_devices();
    assert_eq!(cfg.general.startup_volume, Some(50));
}

/// `[general] startup_volume = 150`.
#[test]
fn startup_volume_over_100_clamped() {
    let mut cfg = Config::default();
    cfg.general.startup_volume = Some(150);
    cfg.sanitize_devices();
    assert_eq!(cfg.general.startup_volume, Some(100));
}

/// `[general] startup_volume = 0`.
#[test]
fn startup_volume_zero_is_valid() {
    let mut cfg = Config::default();
    cfg.general.startup_volume = Some(0);
    cfg.sanitize_devices();
    assert_eq!(cfg.general.startup_volume, Some(0));
}

#[test]
fn night_cap_sanitize_clamps() {
    let mut g = GeneralConfig::default();
    g.night_cap = 5;
    g.sanitize();
    assert_eq!(g.night_cap, 10);

    g.night_cap = 150;
    g.sanitize();
    assert_eq!(g.night_cap, 100);
}

/// `[default] force_sw_volume = false, cap_percent = 80`.
#[test]
fn cap_percent_valid_unchanged_on_sanitize() {
    let mut cfg = Config::default();
    cfg.default = DeviceConfig {
        force_sw_volume: false,
        cap_percent: 80,
    };
    cfg.sanitize_devices();
    assert_eq!(cfg.default.cap_percent, 80);
}

/// `[device."my-dev"] force_sw_volume = false, cap_percent = 0`.
#[test]
fn cap_percent_device_override_clamped() {
    let mut cfg = Config::default();
    cfg.device.insert(
        "my-dev".to_string(),
        DeviceConfig {
            force_sw_volume: false,
            cap_percent: 0,
        },
    );
    cfg.sanitize_devices();
    assert_eq!(cfg.device.get("my-dev").unwrap().cap_percent, 10);
}

// ----- further cases -----

#[test]
fn default_true_is_true() {
    assert!(default_true());
    assert!(GeneralConfig::default().night_enabled);
}

#[test]
fn parse_hm_accepts_spaces_plus_and_leading_zeros() {
    assert_eq!(parse_hm(" 7 : 30 "), Some(450));
    assert_eq!(parse_hm("+7:+05"), Some(425));
    assert_eq!(parse_hm("0007:0000"), Some(420));
    assert_eq!(parse_hm("\u{3000}23:59\t"), Some(1439));
}

#[test]
fn parse_hm_rejects_malformed_numbers() {
    assert_eq!(parse_hm("-7:30"), None);
    assert_eq!(parse_hm("7:30:00"), None);
    assert_eq!(parse_hm(":30"), None);
    assert_eq!(parse_hm("7:"), None);
    assert_eq!(parse_hm("+:30"), None);
    assert_eq!(parse_hm("4294967296:00"), None);
    assert_eq!(parse_hm("99999999999999999999:00"), None);
    assert_eq!(parse_hm("7 1:00"), None);
}

#[test]
fn night_window_needs_both_ends() {
    let mut cfg = GeneralConfig::default();
    cfg.night_start = Some("22:00".to_string());
    assert!(cfg.night_window_minutes().is_none());
    cfg.night_end = Some("25:00".to_string());
    assert!(cfg.night_window_minutes().is_none());
    cfg.night_end = Some("6:15".to_string());
    assert_eq!(cfg.night_window_minutes(), Some((1320, 375)));
}

#[test]
fn sanitize_presets_exact_results() {
    assert_eq!(sanitize_presets(&vec![]), vec![100, 80, 60, 40]);
    assert_eq!(sanitize_presets(&vec![0, 1, 2]), vec![10]);
    assert_eq!(sanitize_presets(&vec![101, 100, 99]), vec![100, 99]);
    assert_eq!(sanitize_presets(&vec![30, 70, 30, 50, 70]), vec![70, 50, 30]);
}

#[test]
fn sanitize_twice_equals_once() {
    let mut g = GeneralConfig::default();
    g.cap_presets = vec![5, 300, 45, 45, 90];
    g.scroll_step_percent = 99;
    g.night_cap = 0;
    g.startup_volume = Some(1000);
    g.devices = Some(vec!["  x".to_string(), "x".to_string(), "y ".to_string(), " ".to_string()]);
    g.sanitize();
    let once = (
        g.cap_presets.clone(),
        g.scroll_step_percent,
        g.night_cap,
        g.startup_volume,
        g.devices.clone(),
    );
    assert_eq!(once.0, vec![100, 90, 45, 10]);
    assert_eq!(once.4, Some(vec!["x".to_string(), "y".to_string()]));
    g.sanitize();
    let twice = (
        g.cap_presets.clone(),
        g.scroll_step_percent,
        g.night_cap,
        g.startup_volume,
        g.devices.clone(),
    );
    assert_eq!(once, twice);
}

#[test]
fn active_device_config_follows_pin() {
    let mut cfg = Config::default();
    cfg.device.insert(
        "Headset".to_string(),
        DeviceConfig {
            force_sw_volume: true,
            cap_percent: 55,
        },
    );
    assert_eq!(active_device_config(&cfg).cap_percent, 100);
    cfg.general.pin_device = Some("Headset".to_string());
    assert_eq!(active_device_config(&cfg).cap_percent, 55);
    cfg.general.pin_device = Some("Other".to_string());
    assert_eq!(active_device_config(&cfg).cap_percent, 100);
}

#[test]
fn device_map_insert_replaces() {
    let mut cfg = Config::default();
    let d1 = DeviceConfig {
        force_sw_volume: true,
        cap_percent: 20,
    };
    let d2 = DeviceConfig {
        force_sw_volume: false,
        cap_percent: 30,
    };
    assert_eq!(cfg.device.insert("a".to_string(), d1), None);
    assert_eq!(cfg.device.insert("a".to_string(), d2), Some(d1));
    assert_eq!(cfg.device.get("a"), Some(&d2));
    assert_eq!(cfg.device.get("b"), None);
    assert_eq!(cfg.device.entries().len(), 1);
    assert!(!cfg.device.is_empty());
}

#[test]
fn migrated_config_from_registry_values() {
    let cfg = migrated_config(Some(1), Some(5), true);
    assert!(cfg.general.autostart);
    assert!(cfg.default.force_sw_volume);
    assert_eq!(cfg.default.cap_percent, 10);
    assert_eq!(cfg.general.cap_presets, vec![100, 80, 60, 40]);
    assert!(cfg.device.is_empty());
    let fresh = migrated_config(None, None, false);
    assert!(!fresh.default.force_sw_volume);
    assert_eq!(fresh.default.cap_percent, 100);
    assert!(!fresh.general.autostart);
}
