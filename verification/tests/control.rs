use winsoftvol::audio::target_device_name;
use winsoftvol::config::Config;
use winsoftvol::control::{
    bridge_plan, device_menu_state, exclusive_mode_step, is_night, mouse_hook_action,
    night_menu_toggle, night_mode_step, pointer_near_tray, toggle_device, ExclusiveNotice,
    HookAction, NightStep,
};

fn names(v: &[&str]) -> Vec<String> {
    v.iter().map(|s| s.to_string()).collect()
}

#[test]
fn toggle_from_all_allowed_removes_device() {
    let all = names(&["A", "B", "C"]);
    let mut cfg = Config::default();
    toggle_device(&mut cfg, "B", &all);
    assert_eq!(cfg.general.devices, Some(names(&["A", "C"])));
    assert!(!cfg.device_allowed("B"));
}

#[test]
fn toggle_back_collapses_to_all() {
    let all = names(&["A", "B", "C"]);
    let mut cfg = Config::default();
    toggle_device(&mut cfg, "B", &all);
    toggle_device(&mut cfg, "B", &all);
    assert_eq!(cfg.general.devices, None);
    assert!(cfg.device_allowed("B"));
}

#[test]
fn toggle_adds_missing_device() {
    let all = names(&["A", "B", "C"]);
    let mut cfg = Config::default();
    cfg.general.devices = Some(names(&["A"]));
    toggle_device(&mut cfg, "C", &all);
    assert_eq!(cfg.general.devices, Some(names(&["A", "C"])));
    assert!(cfg.device_allowed("C"));
}

#[test]
fn device_menu_state_marks_allowed() {
    let mut cfg = Config::default();
    cfg.general.devices = Some(names(&["A"]));
    let state = device_menu_state(&cfg, &names(&["A", "B"]));
    assert_eq!(state, vec![("A".to_string(), true), ("B".to_string(), false)]);
}

#[test]
fn bridge_plan_cases() {
    let mut cfg = Config::default();
    assert_eq!(bridge_plan(&cfg, Some("X")), (true, false));
    assert_eq!(bridge_plan(&cfg, None), (false, true));
    cfg.general.devices = Some(names(&["Y"]));
    assert_eq!(bridge_plan(&cfg, Some("X")), (false, false));
    assert_eq!(bridge_plan(&cfg, Some("Y")), (true, false));
}

#[test]
fn target_device_name_cases() {
    let present = names(&["Speakers", "Headset"]);
    assert_eq!(
        target_device_name(Some("Headset"), &present, Some("Speakers".to_string())),
        Some("Headset".to_string())
    );
    assert_eq!(
        target_device_name(Some("Gone"), &present, Some("Speakers".to_string())),
        None
    );
    assert_eq!(
        target_device_name(None, &present, Some("Speakers".to_string())),
        Some("Speakers".to_string())
    );
    assert_eq!(target_device_name(None, &present, None), None);
}

#[test]
fn night_window_plain_and_across_midnight() {
    assert!(is_night(60, 120, 60));
    assert!(!is_night(60, 120, 120));
    assert!(is_night(1320, 420, 1400));
    assert!(is_night(1320, 420, 0));
    assert!(!is_night(1320, 420, 420));
    assert!(!is_night(1320, 420, 700));
    assert!(!is_night(300, 300, 300));
}

#[test]
fn night_mode_enters_and_leaves() {
    let w = Some((1320, 420));
    let s1 = night_mode_step(false, w, 1330, 40, 100);
    assert_eq!(s1, NightStep { in_night: true, cap: Some(40) });
    let s2 = night_mode_step(s1.in_night, w, 1331, 40, 100);
    assert_eq!(s2, NightStep { in_night: true, cap: None });
    let s3 = night_mode_step(s2.in_night, w, 500, 40, 100);
    assert_eq!(s3, NightStep { in_night: false, cap: Some(100) });
    let s4 = night_mode_step(true, None, 500, 40, 100);
    assert_eq!(s4, NightStep { in_night: false, cap: Some(100) });
    let s5 = night_mode_step(false, None, 500, 40, 100);
    assert_eq!(s5, NightStep { in_night: false, cap: None });
}

#[test]
fn night_menu_toggle_restores_cap() {
    assert_eq!(
        night_menu_toggle(true, true, 80),
        (false, NightStep { in_night: false, cap: Some(80) })
    );
    assert_eq!(
        night_menu_toggle(true, false, 80),
        (false, NightStep { in_night: false, cap: None })
    );
    assert_eq!(
        night_menu_toggle(false, false, 80),
        (true, NightStep { in_night: false, cap: None })
    );
}

#[test]
fn exclusive_mode_announced_once() {
    assert_eq!(exclusive_mode_step(false, true), (true, Some(ExclusiveNotice::Started)));
    assert_eq!(exclusive_mode_step(true, true), (true, None));
    assert_eq!(exclusive_mode_step(true, false), (false, Some(ExclusiveNotice::Ended)));
    assert_eq!(exclusive_mode_step(false, false), (false, None));
}

#[test]
fn pointer_hit_test() {
    assert!(pointer_near_tray(100, 100, 140, 60));
    assert!(!pointer_near_tray(100, 100, 141, 100));
    assert!(!pointer_near_tray(i32::MIN, 0, i32::MAX, 0));
}

#[test]
fn mouse_hook_actions() {
    let up: u32 = 120 << 16;
    let down: u32 = ((-120i16) as u16 as u32) << 16;
    assert_eq!(mouse_hook_action(false, true, true, 10, 10, 0, 0, up), HookAction::Scroll(1));
    assert_eq!(mouse_hook_action(false, true, true, 10, 10, 0, 0, down), HookAction::Scroll(-1));
    assert_eq!(mouse_hook_action(false, true, false, 10, 10, 0, 0, up), HookAction::Ignore);
    assert_eq!(mouse_hook_action(false, true, true, 100, 10, 0, 0, up), HookAction::Ignore);
    assert_eq!(mouse_hook_action(true, false, true, 100, 10, 0, 0, 0), HookAction::LeaveTray);
    assert_eq!(mouse_hook_action(true, false, true, 1, 1, 0, 0, 0), HookAction::Ignore);
    assert_eq!(mouse_hook_action(true, false, false, 100, 10, 0, 0, 0), HookAction::Ignore);
}
